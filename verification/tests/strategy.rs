use router::endpoint::{Address, Endpoint};
use router::ipv4::Ipv4;
use router::rules::{Protocol, Rule};
use router::strategy::{
    BroadcastStrategy, Error, Mode, RoundRobinStrategy, Strategy, StrategyFactory,
};

fn local(port: u16) -> Endpoint {
    Endpoint { address: Address::V4(Ipv4(127, 0, 0, 1)), port }
}

#[test]
fn test_mode() {
    assert_eq!("roundrobin".parse(), Ok(Mode::RoundRobin));
    assert_eq!("broadcast".parse(), Ok(Mode::Broadcast));
}

#[test]
fn strategy_test_mode() {
    assert_eq!("roundrobin".parse(), Ok(Mode::RoundRobin));
    assert_eq!("broadcast".parse(), Ok(Mode::Broadcast));
}

#[test]
fn mode_names_ignore_case() {
    assert_eq!("RoundRobin".parse(), Ok(Mode::RoundRobin));
    assert_eq!("BROADCAST".parse(), Ok(Mode::Broadcast));
}

#[test]
fn mode_error_holds_the_text() {
    let outcome: Result<Mode, Error> = "round-robin".parse();
    assert_eq!(outcome, Err(Error::ParseModeError("round-robin".to_string())));
    let outcome: Result<Mode, Error> = "".parse();
    assert_eq!(outcome, Err(Error::ParseModeError(String::new())));
    assert_eq!(
        Error::ParseModeError("anycast".to_string()).to_string(),
        "anycast is not a mode".to_string()
    );
}

#[test]
fn mode_display_and_json_names() {
    assert_eq!(Mode::RoundRobin.to_string(), "RoundRobin".to_string());
    assert_eq!(Mode::Broadcast.to_string(), "Broadcast".to_string());
    assert_eq!(Mode::RoundRobin.name(), "round-robin");
    assert_eq!(Mode::Broadcast.name(), "broadcast");
    assert_eq!(Mode::from_name("round-robin"), Some(Mode::RoundRobin));
    assert_eq!(Mode::from_name("broadcast"), Some(Mode::Broadcast));
    assert_eq!(Mode::from_name("Broadcast"), None);
    assert_eq!(Mode::from_name("roundrobin"), None);
}

#[test]
fn default_mode_follows_the_protocol() {
    assert_eq!(Mode::default_for(Protocol::Udp), Mode::Broadcast);
    assert_eq!(Mode::default_for(Protocol::Tcp), Mode::RoundRobin);
}

#[test]
fn broadcast_hands_out_all_in_list_order() {
    let peers = vec![local(8081), local(8082), local(8083)];
    let mut strategy = BroadcastStrategy::new(&peers);
    for _ in 0..4 {
        assert_eq!(strategy.destinations(), peers);
    }
}

#[test]
fn round_robin_visits_each_once_per_cycle() {
    let peers = vec![local(9001), local(9002), local(9003)];
    let mut strategy = RoundRobinStrategy::new(&peers);
    let mut seen = Vec::new();
    for _ in 0..6 {
        let selected = strategy.destinations();
        assert_eq!(selected.len(), 1);
        seen.push(selected[0]);
    }
    assert_eq!(
        seen,
        vec![local(9001), local(9002), local(9003), local(9001), local(9002), local(9003)]
    );
}

#[test]
fn round_robin_over_one_peer_repeats_it() {
    let peers = vec![local(7001)];
    let mut strategy = RoundRobinStrategy::new(&peers);
    assert_eq!(strategy.destinations(), vec![local(7001)]);
    assert_eq!(strategy.destinations(), vec![local(7001)]);
}

#[test]
fn strategy_is_picked_by_mode() {
    let peers = vec![local(1), local(2)];
    let mut all = Strategy::new(Mode::Broadcast, &peers);
    assert!(matches!(all, Strategy::Broadcast(_)));
    assert_eq!(all.destinations(), peers);
    assert_eq!(all.destinations(), peers);
    let mut one = Strategy::new(Mode::RoundRobin, &peers);
    assert!(matches!(one, Strategy::RoundRobin(_)));
    assert_eq!(one.destinations(), vec![local(1)]);
    assert_eq!(one.destinations(), vec![local(2)]);
    assert_eq!(one.destinations(), vec![local(1)]);
}

#[test]
fn factory_follows_the_rule() {
    let rule = Rule {
        protocol: Protocol::Udp,
        mode: Mode::RoundRobin,
        source: local(9000),
        destinations: vec![local(9001), local(9002)],
    };
    let mut strategy = StrategyFactory::make(&rule);
    assert_eq!(strategy.destinations(), vec![local(9001)]);
    assert_eq!(strategy.destinations(), vec![local(9002)]);
    let rule = Rule { mode: Mode::Broadcast, ..rule };
    let mut strategy = StrategyFactory::make(&rule);
    assert_eq!(strategy.destinations(), vec![local(9001), local(9002)]);
}
