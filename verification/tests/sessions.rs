use router::endpoint::{Address, Endpoint};
use router::ipv4::Ipv4;
use router::protocol::tcp::{
    Side, TcpAction, TcpEvent, TcpSession, TcpState, Transfer, TransferAction, TransferEvent,
    TransferState,
};
use router::protocol::udp::{UdpAction, UdpEvent, UdpSession, UdpState, BUFFER_SIZE};
use router::protocol::{Error, Exit};
use router::rules::Rule;
use router::strategy::{Mode, Strategy, StrategyFactory};

fn local(port: u16) -> Endpoint {
    Endpoint { address: Address::V4(Ipv4(127, 0, 0, 1)), port }
}

fn udp_session(text: &str) -> UdpSession {
    let rule = Rule::from_json(text).unwrap();
    assert!(rule.is_valid());
    let strategy = StrategyFactory::make(&rule);
    UdpSession::new(&rule, strategy)
}

const CONFIG: &str = r#"{
  "protocol": "udp",
  "mode": "broadcast",
  "source": "127.0.0.1:8080",
  "destinations": ["127.0.0.1:8081", "127.0.0.1:8082"]
}"#;

/// Sends a packet to the session and answers where it goes, in order.
fn send_str(session: &mut UdpSession, packet: &[u8]) -> Vec<(Endpoint, usize)> {
    let mut sent = Vec::new();
    let mut action = session.step(UdpEvent::Received(packet.len()));
    while let UdpAction::Send { to, length } = action {
        sent.push((to, length));
        action = session.step(UdpEvent::Sent);
    }
    assert_eq!(action, UdpAction::Receive(BUFFER_SIZE));
    sent
}

#[test]
fn udp_broadcast_test_basic() {
    let mut session = udp_session(CONFIG);
    assert_eq!(session.start(), UdpAction::Bind(local(8080)));
    assert_eq!(session.step(UdpEvent::Bound), UdpAction::Receive(1500));

    let packet = b"Just a test";
    assert_eq!(send_str(&mut session, packet), vec![(local(8081), 11), (local(8082), 11)]);
    let packet = b"Another test";
    assert_eq!(send_str(&mut session, packet), vec![(local(8081), 12), (local(8082), 12)]);
}

#[test]
fn udp_round_robin_rotation() {
    let mut session = udp_session(
        r#"{"protocol": "udp", "mode": "round-robin", "source": "127.0.0.1:9000",
            "destinations": ["127.0.0.1:9001", "127.0.0.1:9002"]}"#,
    );
    assert_eq!(session.start(), UdpAction::Bind(local(9000)));
    assert_eq!(session.step(UdpEvent::Bound), UdpAction::Receive(1500));
    let payloads: [&[u8]; 4] = [b"ab", b"abc", b"abcd", b"abcde"];
    let mut first = Vec::new();
    let mut second = Vec::new();
    for payload in payloads {
        let sent = send_str(&mut session, payload);
        assert_eq!(sent.len(), 1);
        if sent[0].0 == local(9001) {
            first.push(sent[0].1);
        } else {
            assert_eq!(sent[0].0, local(9002));
            second.push(sent[0].1);
        }
    }
    assert_eq!(first, vec![2, 4]);
    assert_eq!(second, vec![3, 5]);
}

#[test]
fn udp_states() {
    let mut session = udp_session(CONFIG);
    assert_eq!(session.state(), UdpState::Binding);
    session.step(UdpEvent::Bound);
    assert_eq!(session.state(), UdpState::Receiving);
    session.step(UdpEvent::Received(3));
    assert_eq!(session.state(), UdpState::Dispatching);
    session.step(UdpEvent::Sent);
    assert_eq!(session.state(), UdpState::Dispatching);
    session.step(UdpEvent::Sent);
    assert_eq!(session.state(), UdpState::Receiving);
    session.step(UdpEvent::Received(0));
    assert_eq!(session.state(), UdpState::Terminated);
}

#[test]
fn udp_bind_failure_is_fatal() {
    let mut session = udp_session(CONFIG);
    assert_eq!(session.step(UdpEvent::BindFailed), UdpAction::Stop(Exit::Failed(Error::Bind)));
    assert_eq!(session.state(), UdpState::Terminated);
    assert_eq!(session.step(UdpEvent::Bound), UdpAction::Stop(Exit::Failed(Error::Bind)));
    assert_eq!(session.step(UdpEvent::Cancelled), UdpAction::Stop(Exit::Failed(Error::Bind)));
    assert_eq!(session.start(), UdpAction::Stop(Exit::Failed(Error::Bind)));
}

#[test]
fn udp_empty_datagram_ends_the_session() {
    let mut session = udp_session(CONFIG);
    session.step(UdpEvent::Bound);
    assert_eq!(session.step(UdpEvent::Received(0)), UdpAction::Stop(Exit::Clean));
    assert_eq!(session.step(UdpEvent::Received(5)), UdpAction::Stop(Exit::Clean));
}

#[test]
fn udp_failures_are_passed_over() {
    let mut session = udp_session(CONFIG);
    session.step(UdpEvent::Bound);
    assert_eq!(session.step(UdpEvent::ReceiveFailed), UdpAction::Receive(1500));
    assert_eq!(
        session.step(UdpEvent::Received(7)),
        UdpAction::Send { to: local(8081), length: 7 }
    );
    assert_eq!(
        session.step(UdpEvent::SendFailed),
        UdpAction::Send { to: local(8082), length: 7 }
    );
    assert_eq!(session.step(UdpEvent::SendFailed), UdpAction::Receive(1500));
}

#[test]
fn udp_long_datagram_is_cut_to_the_buffer() {
    let mut session = udp_session(CONFIG);
    session.step(UdpEvent::Bound);
    assert_eq!(
        session.step(UdpEvent::Received(1500)),
        UdpAction::Send { to: local(8081), length: 1500 }
    );
    session.step(UdpEvent::Sent);
    session.step(UdpEvent::Sent);
    assert_eq!(
        session.step(UdpEvent::Received(9000)),
        UdpAction::Send { to: local(8081), length: 1500 }
    );
    assert_eq!(BUFFER_SIZE, 1500);
}

#[test]
fn udp_cancel_at_any_point() {
    let mut session = udp_session(CONFIG);
    assert_eq!(session.step(UdpEvent::Cancelled), UdpAction::Stop(Exit::Clean));
    let mut session = udp_session(CONFIG);
    session.step(UdpEvent::Bound);
    assert_eq!(session.step(UdpEvent::Cancelled), UdpAction::Stop(Exit::Clean));
    let mut session = udp_session(CONFIG);
    session.step(UdpEvent::Bound);
    session.step(UdpEvent::Received(4));
    assert_eq!(session.step(UdpEvent::Cancelled), UdpAction::Stop(Exit::Clean));
    assert_eq!(session.step(UdpEvent::Sent), UdpAction::Stop(Exit::Clean));
}

#[test]
fn udp_ignores_what_it_does_not_wait_for() {
    let mut session = udp_session(CONFIG);
    assert_eq!(session.step(UdpEvent::Received(4)), UdpAction::Bind(local(8080)));
    assert_eq!(session.step(UdpEvent::Sent), UdpAction::Bind(local(8080)));
    session.step(UdpEvent::Bound);
    assert_eq!(session.step(UdpEvent::Bound), UdpAction::Receive(1500));
    assert_eq!(session.step(UdpEvent::Sent), UdpAction::Receive(1500));
    assert_eq!(session.step(UdpEvent::BindFailed), UdpAction::Receive(1500));
    session.step(UdpEvent::Received(4));
    assert_eq!(
        session.step(UdpEvent::Received(9)),
        UdpAction::Send { to: local(8081), length: 4 }
    );
}

#[test]
fn udp_broadcast_without_destinations_sends_nothing() {
    let rule = Rule::from_json(
        r#"{"protocol":"udp","mode":"broadcast","source":"127.0.0.1:8080","destinations":[]}"#,
    )
    .unwrap();
    let strategy = Strategy::new(Mode::Broadcast, &rule.destinations);
    let mut session = UdpSession::new(&rule, strategy);
    session.step(UdpEvent::Bound);
    assert_eq!(session.step(UdpEvent::Received(4)), UdpAction::Receive(1500));
}

fn tcp_session(destinations: &[u16]) -> TcpSession {
    let peers: Vec<Endpoint> = destinations.iter().map(|port| local(*port)).collect();
    TcpSession::new(local(7000), Strategy::new(Mode::RoundRobin, &peers))
}

#[test]
fn tcp_single_peer_splice() {
    let mut session = tcp_session(&[7001]);
    assert_eq!(session.run(), TcpAction::Bind(local(7000)));
    assert_eq!(session.step(TcpEvent::Bound), TcpAction::Accept);
    assert_eq!(session.step(TcpEvent::Accepted), TcpAction::Forward { to: local(7001) });

    let mut transfer = Transfer::new(local(7001));
    assert_eq!(transfer.start(), TransferAction::Connect(local(7001)));
    assert_eq!(transfer.step(TransferEvent::Connected), TransferAction::Splice);
    // The client sends "ping", reads it back and closes: its stream ends first.
    assert_eq!(
        transfer.step(TransferEvent::EndOfStream(Side::Client)),
        TransferAction::ShutdownWrite(Side::Server)
    );
    assert_eq!(transfer.state, TransferState::HalfClosed(Side::Client));
    // The echoing server sees the end of the stream and closes too.
    assert_eq!(
        transfer.step(TransferEvent::EndOfStream(Side::Server)),
        TransferAction::ShutdownWrite(Side::Client)
    );
    assert_eq!(transfer.step(TransferEvent::ShutDown), TransferAction::Close);
    assert_eq!(transfer.state, TransferState::Closed);

    assert_eq!(session.step(TcpEvent::Forwarded), TcpAction::Accept);
    assert_eq!(session.step(TcpEvent::Accepted), TcpAction::Forward { to: local(7001) });
}

#[test]
fn tcp_connections_take_destinations_in_turn() {
    let mut session = tcp_session(&[7001, 7002, 7003]);
    session.step(TcpEvent::Bound);
    let mut targets = Vec::new();
    for _ in 0..7 {
        match session.step(TcpEvent::Accepted) {
            TcpAction::Forward { to } => targets.push(to.port),
            other => panic!("{:?}", other),
        }
        assert_eq!(session.state(), TcpState::Forwarding);
        assert_eq!(session.step(TcpEvent::Forwarded), TcpAction::Accept);
    }
    assert_eq!(targets, vec![7001, 7002, 7003, 7001, 7002, 7003, 7001]);
}

#[test]
fn tcp_bind_and_accept_failures() {
    let mut session = tcp_session(&[7001]);
    assert_eq!(session.state(), TcpState::Binding);
    assert_eq!(session.step(TcpEvent::BindFailed), TcpAction::Stop(Exit::Failed(Error::Bind)));
    assert_eq!(session.step(TcpEvent::Bound), TcpAction::Stop(Exit::Failed(Error::Bind)));

    let mut session = tcp_session(&[7001]);
    session.step(TcpEvent::Bound);
    assert_eq!(session.state(), TcpState::Accepting);
    assert_eq!(session.step(TcpEvent::AcceptFailed { fatal: false }), TcpAction::Accept);
    assert_eq!(
        session.step(TcpEvent::AcceptFailed { fatal: true }),
        TcpAction::Stop(Exit::Failed(Error::Accept))
    );
    assert_eq!(session.state(), TcpState::Terminated);
}

#[test]
fn tcp_cancel_and_stray_events() {
    let mut session = tcp_session(&[7001, 7002]);
    assert_eq!(session.step(TcpEvent::Accepted), TcpAction::Bind(local(7000)));
    session.step(TcpEvent::Bound);
    assert_eq!(session.step(TcpEvent::Forwarded), TcpAction::Accept);
    assert_eq!(session.step(TcpEvent::Accepted), TcpAction::Forward { to: local(7001) });
    assert_eq!(session.step(TcpEvent::Accepted), TcpAction::Forward { to: local(7001) });
    assert_eq!(session.step(TcpEvent::Cancelled), TcpAction::Stop(Exit::Clean));
    assert_eq!(session.step(TcpEvent::Accepted), TcpAction::Stop(Exit::Clean));
}

#[test]
fn transfer_closes_the_client_when_the_dial_fails() {
    let mut transfer = Transfer::new(local(7001));
    assert_eq!(transfer.step(TransferEvent::ConnectFailed), TransferAction::Close);
    assert_eq!(transfer.step(TransferEvent::Connected), TransferAction::Close);
}

#[test]
fn transfer_half_close_is_symmetric() {
    let mut transfer = Transfer::new(local(7001));
    transfer.step(TransferEvent::Connected);
    assert_eq!(
        transfer.step(TransferEvent::EndOfStream(Side::Server)),
        TransferAction::ShutdownWrite(Side::Client)
    );
    // The same stream cannot end twice.
    assert_eq!(
        transfer.step(TransferEvent::EndOfStream(Side::Server)),
        TransferAction::ShutdownWrite(Side::Client)
    );
    assert_eq!(transfer.state, TransferState::HalfClosed(Side::Server));
    assert_eq!(
        transfer.step(TransferEvent::EndOfStream(Side::Client)),
        TransferAction::ShutdownWrite(Side::Server)
    );
    assert_eq!(transfer.state, TransferState::Closing(Side::Client));
    assert_eq!(transfer.step(TransferEvent::ShutDown), TransferAction::Close);
    assert_eq!(Side::Client.opposite(), Side::Server);
    assert_eq!(Side::Server.opposite(), Side::Client);
}

#[test]
fn transfer_failure_closes() {
    let mut transfer = Transfer::new(local(7001));
    transfer.step(TransferEvent::Connected);
    assert_eq!(transfer.step(TransferEvent::Failed), TransferAction::Close);
    let mut transfer = Transfer::new(local(7001));
    transfer.step(TransferEvent::Connected);
    transfer.step(TransferEvent::EndOfStream(Side::Client));
    assert_eq!(transfer.step(TransferEvent::Failed), TransferAction::Close);
    let mut transfer = Transfer::new(local(7001));
    assert_eq!(transfer.step(TransferEvent::ShutDown), TransferAction::Connect(local(7001)));
    assert_eq!(transfer.step(TransferEvent::Failed), TransferAction::Close);
}

const CAPITALISED: &str = r#"{
  "protocol": "Udp",
  "mode": "Broadcast",
  "sources": ["127.0.0.1:8080"],
  "destinations": ["127.0.0.1:8081", "127.0.0.1:8082"]
}"#;

/// The names of a rule are in lower case, and a rule has one source: a text
/// with other names, or with a list of sources, is no rule.
#[test]
fn test_udp_broadcast_test_basic() {
    assert!(Rule::from_json(CAPITALISED).is_err());
    let lower = CAPITALISED.replace("Udp", "udp").replace("Broadcast", "broadcast");
    assert!(Rule::from_json(&lower).is_err());
    let single = lower.replace(r#""sources": ["127.0.0.1:8080"]"#, r#""source": "127.0.0.1:8080""#);
    let rule = Rule::from_json(&single).unwrap();

    let msgs = vec!["Just a test", "Another test"];
    let strategy = StrategyFactory::make(&rule);
    let mut session = UdpSession::new(&rule, strategy);
    assert_eq!(session.start(), UdpAction::Bind(local(8080)));
    assert_eq!(session.step(UdpEvent::Bound), UdpAction::Receive(1500));
    // For each in a list of strings, send it and verify that it
    // arrives correctly to all destinations.
    for msg in msgs {
        assert_eq!(
            send_str(&mut session, msg.as_bytes()),
            vec![(local(8081), msg.len()), (local(8082), msg.len())]
        );
    }
}
