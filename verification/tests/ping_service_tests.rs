use ping_fox::Ipv4Addr;
use ping_fox::OnReceive;
use ping_fox::OnSend;
use ping_fox::PingService;
use ping_fox::PingServiceConfig;
use ping_fox::SocketMock;

const ONE_SECOND: u64 = 1_000_000_000;

#[test]
fn ping_localhost_succeeds() {
    let ping_config = PingServiceConfig {
        ips: vec![Ipv4Addr::new(127, 0, 0, 1)],
        count: 1,
        interval: ONE_SECOND,
        channel_size: 4,
    };
    let socket = SocketMock::new(OnSend::ReturnDefault, OnReceive::ReturnDefault(1));

    let mut ping_service = PingService::create(socket, ping_config).unwrap();
    let ping_output = ping_service.next_ping_output();
    assert!(ping_output.is_ok());
}

#[test]
fn halt_succeeds() {
    let ping_config = PingServiceConfig {
        ips: vec![Ipv4Addr::new(127, 0, 0, 1)],
        count: 1,
        interval: ONE_SECOND,
        channel_size: 4,
    };
    let socket = SocketMock::new(OnSend::ReturnDefault, OnReceive::ReturnDefault(1));

    let mut ping_service = PingService::create(socket, ping_config).unwrap();
    assert!(ping_service.halt().is_ok());
}

#[test]
fn halt_twice_succeeds_and_blocks_output() {
    let ping_config = PingServiceConfig {
        ips: vec![Ipv4Addr::new(127, 0, 0, 1)],
        count: 1,
        interval: ONE_SECOND,
        channel_size: 4,
    };
    let socket = SocketMock::new(OnSend::ReturnDefault, OnReceive::ReturnDefault(1));

    let mut ping_service = PingService::create(socket, ping_config).unwrap();
    assert!(ping_service.halt().is_ok());
    assert!(ping_service.halt().is_ok());
    let after_halt = ping_service.next_ping_output();
    assert!(after_halt.is_err());
    assert_eq!(
        after_halt.unwrap_err().message,
        "cannot next_ping_output() when PingRunner is not in state Running"
    );
}
