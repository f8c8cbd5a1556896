use router::config::{Config, Error, ErrorKind, Web};
use router::endpoint::{Address, Endpoint};
use router::ipv4::Ipv4;
use router::rules::{Protocol, Rule};
use router::strategy::Mode;

type Result<T> = std::result::Result<T, Error>;

#[test]
fn test_rule_parse() {
    let rule: Result<Rule> =
        r#"{"protocol": "udp", "mode": "broadcast", "source": "127.0.0.1:8080", "destinations": []}"#
            .parse();
    assert_eq!(
        rule,
        Ok(Rule {
            protocol: Protocol::Udp,
            mode: Mode::Broadcast,
            source: "127.0.0.1:8080".parse().unwrap(),
            destinations: vec![]
        })
    );

    let rule: Result<Rule> = r#"{"protocol":"udp",
                "mode":"broadcast", "source": "127.0.0.1:9080",
                "destinations": []}"#
        .parse();
    assert_eq!(
        rule,
        Ok(Rule {
            protocol: Protocol::Udp,
            mode: Mode::Broadcast,
            source: "127.0.0.1:9080".parse().unwrap(),
            destinations: vec![]
        })
    );

    let rule: Result<Rule> = r#"{"protocol":"udp",
                "mode":"broadcast", "source": "127.0.0.1:9080",
                "destinations": ["127.0.0.1:9081", "127.0.0.1:9082"]}"#
        .parse();
    assert_eq!(
        rule,
        Ok(Rule {
            protocol: Protocol::Udp,
            mode: Mode::Broadcast,
            source: "127.0.0.1:9080".parse().unwrap(),
            destinations: vec![
                "127.0.0.1:9081".parse().unwrap(),
                "127.0.0.1:9082".parse().unwrap()
            ]
        })
    );

    let rule: Result<Rule> = r#"{"protocol":"udp",
                "mode":"broadcast", "source": "127.0.0.1:9080",
                "destinations": ["127.0.0.1:9081"]}"#
        .parse();
    assert_eq!(
        rule,
        Ok(Rule {
            protocol: Protocol::Udp,
            mode: Mode::Broadcast,
            source: "127.0.0.1:9080".parse().unwrap(),
            destinations: vec!["127.0.0.1:9081".parse().unwrap()]
        })
    );
}

#[test]
fn test_config_parse() {
    let config: Result<Config> = r#"
{
    "web": {"port": 1111},
    "rules": [
	{
	    "protocol":"udp",
	    "mode":"broadcast",
	    "source": "127.0.0.1:9080",
	    "destinations": ["127.0.0.1:9081", "127.0.0.1:9082"]
	}
    ]
}
"#
    .parse();
    assert_eq!(
        config,
        Ok(Config {
            web: Some(Web::Port(Some(1111))),
            rules: vec![Rule {
                protocol: Protocol::Udp,
                mode: Mode::Broadcast,
                source: "127.0.0.1:9080".parse().unwrap(),
                destinations: vec![
                    "127.0.0.1:9081".parse().unwrap(),
                    "127.0.0.1:9082".parse().unwrap()
                ]
            }]
        })
    );
}

#[test]
fn test_config_parse_no_web() {
    let config: Result<Config> = r#"
{
    "rules": [
	{
	    "protocol":"udp",
	    "mode":"broadcast",
	    "source": "127.0.0.1:9080",
	    "destinations": ["127.0.0.1:9081", "127.0.0.1:9082"]
	}
    ]
}
"#
    .parse();
    assert_eq!(
        config,
        Ok(Config {
            web: None,
            rules: vec![Rule {
                protocol: Protocol::Udp,
                mode: Mode::Broadcast,
                source: "127.0.0.1:9080".parse().unwrap(),
                destinations: vec![
                    "127.0.0.1:9081".parse().unwrap(),
                    "127.0.0.1:9082".parse().unwrap()
                ]
            }]
        })
    );
}

#[test]
fn test_config_serialize_no_web() {
    let config = Config {
        web: None,
        rules: vec![Rule {
            protocol: Protocol::Udp,
            mode: Mode::Broadcast,
            source: "127.0.0.1:9080".parse().unwrap(),
            destinations: vec![
                "127.0.0.1:9081".parse().unwrap(),
                "127.0.0.1:9082".parse().unwrap(),
            ],
        }],
    };
    let result = r#"{"rules":[{"protocol":"udp","mode":"broadcast","source":"127.0.0.1:9080","destinations":["127.0.0.1:9081","127.0.0.1:9082"]}]}"#;
    assert_eq!(config.to_json().unwrap(), result.to_string());
}

#[test]
fn test_web_parse() {
    assert_eq!(
        Web::Port(Some(4711)).to_string(),
        "localhost:4711".to_string()
    );
    assert_eq!(Web::Port(None).to_string(), "localhost:*".to_string());
}

fn local(port: u16) -> Endpoint {
    Endpoint { address: Address::V4(Ipv4(127, 0, 0, 1)), port }
}

fn kind<T: std::fmt::Debug>(outcome: Result<T>) -> ErrorKind {
    outcome.unwrap_err().error_kind()
}

#[test]
fn web_address_display() {
    let web = Web::Address(Endpoint { address: Address::V4(Ipv4(10, 0, 0, 7)), port: 8080 });
    assert_eq!(web.to_string(), "10.0.0.7:8080".to_string());
}

#[test]
fn web_from_text() {
    assert_eq!("192.168.1.1:80".parse(), Ok(Web::Address(Endpoint {
        address: Address::V4(Ipv4(192, 168, 1, 1)),
        port: 80
    })));
    assert_eq!("8080".parse(), Ok(Web::Port(Some(8080))));
    assert_eq!("+8080".parse(), Ok(Web::Port(Some(8080))));
    assert_eq!("0".parse(), Ok(Web::Port(Some(0))));
    assert_eq!("65535".parse(), Ok(Web::Port(Some(65535))));
    assert_eq!("*".parse(), Ok(Web::Port(None)));
    let outcome: Result<Web> = "65536".parse();
    assert_eq!(
        outcome,
        Err(Error::SyntaxError(
            "'65536' is neither a port description nor a socket address".to_string()
        ))
    );
    let outcome: Result<Web> = "localhost".parse();
    assert_eq!(kind(outcome), ErrorKind::Syntax);
    let outcome: Result<Web> = "".parse();
    assert_eq!(kind(outcome), ErrorKind::Syntax);
    let outcome: Result<Web> = "+".parse();
    assert_eq!(kind(outcome), ErrorKind::Syntax);
}

#[test]
fn rule_text_is_exact() {
    let rule = Rule {
        protocol: Protocol::Tcp,
        mode: Mode::RoundRobin,
        source: local(7000),
        destinations: vec![local(7001)],
    };
    assert_eq!(
        rule.to_json().unwrap(),
        r#"{"protocol":"tcp","mode":"round-robin","source":"127.0.0.1:7000","destinations":["127.0.0.1:7001"]}"#
            .to_string()
    );
}

#[test]
fn rule_round_trip_through_text() {
    let rules = vec![
        Rule {
            protocol: Protocol::Udp,
            mode: Mode::Broadcast,
            source: local(8080),
            destinations: vec![local(8081), local(8082)],
        },
        Rule {
            protocol: Protocol::Udp,
            mode: Mode::RoundRobin,
            source: Endpoint { address: Address::V4(Ipv4(0, 0, 0, 0)), port: 0 },
            destinations: vec![Endpoint { address: Address::V4(Ipv4(255, 255, 255, 255)), port: 65535 }],
        },
        Rule {
            protocol: Protocol::Tcp,
            mode: Mode::RoundRobin,
            source: local(7000),
            destinations: vec![local(7001)],
        },
        Rule { protocol: Protocol::Tcp, mode: Mode::Broadcast, source: local(1), destinations: vec![] },
    ];
    for rule in rules {
        let text = rule.to_json().unwrap();
        assert_eq!(Rule::from_json(&text), Ok(rule));
    }
}

#[test]
fn config_round_trip_through_text() {
    let rule = Rule {
        protocol: Protocol::Udp,
        mode: Mode::Broadcast,
        source: local(8080),
        destinations: vec![local(8081), local(8082)],
    };
    for web in [
        None,
        Some(Web::Port(Some(2357))),
        Some(Web::Port(None)),
        Some(Web::Address(local(8000))),
    ] {
        let config = Config { web, rules: vec![rule.clone(), rule.clone()] };
        let text = config.to_json().unwrap();
        assert_eq!(Config::from_json(&text), Ok(config));
    }
}

#[test]
fn config_text_is_exact() {
    let mut config = Config::new();
    assert_eq!(config.to_json().unwrap(), r#"{"rules":[]}"#.to_string());
    config.set_port(2357);
    assert_eq!(config.to_json().unwrap(), r#"{"web":{"port":2357},"rules":[]}"#.to_string());
    assert_eq!(config.to_string(), r#"{"web":{"port":2357},"rules":[]}"#.to_string());
    config.web = Some(Web::Port(None));
    assert_eq!(config.to_json().unwrap(), r#"{"web":{"port":"*"},"rules":[]}"#.to_string());
    config.web = Some(Web::Address(local(80)));
    assert_eq!(
        config.to_json().unwrap(),
        r#"{"web":{"address":"127.0.0.1:80"},"rules":[]}"#.to_string()
    );
}

#[test]
fn config_builders() {
    let mut config = Config::new();
    assert_eq!(config, Config { web: None, rules: vec![] });
    assert_eq!(Config::default(), config);
    config.set_port(8080);
    let rule = Rule {
        protocol: Protocol::Udp,
        mode: Mode::Broadcast,
        source: local(9080),
        destinations: vec![local(9081)],
    };
    config.add_rule(rule.clone());
    config.add_rule(Rule { source: local(9090), ..rule.clone() });
    assert_eq!(
        config,
        Config {
            web: Some(Web::Port(Some(8080))),
            rules: vec![rule.clone(), Rule { source: local(9090), ..rule }]
        }
    );
}

#[test]
fn web_forms_of_a_config() {
    let config: Result<Config> = r#"{"web": {"port": "*"}, "rules": []}"#.parse();
    assert_eq!(config, Ok(Config { web: Some(Web::Port(None)), rules: vec![] }));
    let config: Result<Config> = r#"{"web": {"port": null}, "rules": []}"#.parse();
    assert_eq!(config, Ok(Config { web: Some(Web::Port(None)), rules: vec![] }));
    let config: Result<Config> = r#"{"web": null, "rules": []}"#.parse();
    assert_eq!(config, Ok(Config { web: None, rules: vec![] }));
    let config: Result<Config> = r#"{"web": {"address": "10.1.2.3:4000"}, "rules": []}"#.parse();
    assert_eq!(
        config,
        Ok(Config {
            web: Some(Web::Address(Endpoint { address: Address::V4(Ipv4(10, 1, 2, 3)), port: 4000 })),
            rules: vec![]
        })
    );
    let config: Result<Config> = r#"{"web": {"port": 65535}, "rules": []}"#.parse();
    assert_eq!(config, Ok(Config { web: Some(Web::Port(Some(65535))), rules: vec![] }));
}

#[test]
fn config_errors() {
    assert_eq!(kind(Config::from_json(r#"{"web": {"port": 65536}, "rules": []}"#)), ErrorKind::Json);
    assert_eq!(kind(Config::from_json(r#"{"web": {"port": -1}, "rules": []}"#)), ErrorKind::Json);
    assert_eq!(kind(Config::from_json(r#"{"web": {"port": "80"}, "rules": []}"#)), ErrorKind::Json);
    assert_eq!(kind(Config::from_json(r#"{"web": {}, "rules": []}"#)), ErrorKind::Json);
    assert_eq!(kind(Config::from_json(r#"{"web": {"address": "nowhere"}, "rules": []}"#)), ErrorKind::Config);
    assert_eq!(kind(Config::from_json(r#"{"web": {"port": 1}}"#)), ErrorKind::Json);
    assert_eq!(kind(Config::from_json(r#"{"rules": {}}"#)), ErrorKind::Json);
    assert_eq!(kind(Config::from_json(r#"{"rules": [1]}"#)), ErrorKind::Json);
    assert_eq!(kind(Config::from_json(r#"{"rules": ["#)), ErrorKind::Json);
    assert_eq!(kind(Config::from_json("")), ErrorKind::Json);
    assert_eq!(
        kind(Config::from_json(
            r#"{"rules": [{"protocol":"udp","mode":"anycast","source":"1.2.3.4:5","destinations":[]}]}"#
        )),
        ErrorKind::Syntax
    );
}

#[test]
fn mode_defaults_by_protocol() {
    let rule = Rule::from_json(r#"{"protocol":"udp","source":"1.2.3.4:5","destinations":["1.2.3.4:6"]}"#);
    assert_eq!(rule.unwrap().mode, Mode::Broadcast);
    let rule = Rule::from_json(r#"{"protocol":"tcp","source":"1.2.3.4:5","destinations":["1.2.3.4:6"]}"#);
    assert_eq!(rule.unwrap().mode, Mode::RoundRobin);
}

#[test]
fn rule_errors_by_kind() {
    let missing_protocol = r#"{"mode":"broadcast","source":"1.2.3.4:5","destinations":[]}"#;
    assert_eq!(kind(Rule::from_json(missing_protocol)), ErrorKind::Json);
    let protocol_number = r#"{"protocol":4,"mode":"broadcast","source":"1.2.3.4:5","destinations":[]}"#;
    assert_eq!(kind(Rule::from_json(protocol_number)), ErrorKind::Json);
    let upper_case = r#"{"protocol":"UDP","mode":"broadcast","source":"1.2.3.4:5","destinations":[]}"#;
    assert_eq!(kind(Rule::from_json(upper_case)), ErrorKind::Syntax);
    let bad_mode = r#"{"protocol":"udp","mode":"roundrobin","source":"1.2.3.4:5","destinations":[]}"#;
    assert_eq!(kind(Rule::from_json(bad_mode)), ErrorKind::Syntax);
    let mode_null = r#"{"protocol":"udp","mode":null,"source":"1.2.3.4:5","destinations":[]}"#;
    assert_eq!(kind(Rule::from_json(mode_null)), ErrorKind::Json);
    let missing_source = r#"{"protocol":"udp","mode":"broadcast","destinations":[]}"#;
    assert_eq!(kind(Rule::from_json(missing_source)), ErrorKind::Json);
    let bad_source = r#"{"protocol":"udp","mode":"broadcast","source":"localhost:80","destinations":[]}"#;
    assert_eq!(
        Rule::from_json(bad_source),
        Err(Error::ConfigError("not an address".to_string()))
    );
    let missing_destinations = r#"{"protocol":"udp","mode":"broadcast","source":"1.2.3.4:5"}"#;
    assert_eq!(kind(Rule::from_json(missing_destinations)), ErrorKind::Json);
    let destinations_text = r#"{"protocol":"udp","mode":"broadcast","source":"1.2.3.4:5","destinations":"1.2.3.4:6"}"#;
    assert_eq!(kind(Rule::from_json(destinations_text)), ErrorKind::Json);
    let bad_destination = r#"{"protocol":"udp","mode":"broadcast","source":"1.2.3.4:5","destinations":["1.2.3.4:6","1.2.3.4"]}"#;
    assert_eq!(kind(Rule::from_json(bad_destination)), ErrorKind::Config);
    let destination_number = r#"{"protocol":"udp","mode":"broadcast","source":"1.2.3.4:5","destinations":[80]}"#;
    assert_eq!(kind(Rule::from_json(destination_number)), ErrorKind::Json);
    assert_eq!(kind(Rule::from_json("[]")), ErrorKind::Json);
    assert_eq!(kind(Rule::from_json("{")), ErrorKind::Json);
    assert_eq!(kind(Rule::from_json("not json")), ErrorKind::Json);
}

#[test]
fn first_wrong_member_decides() {
    let text = r#"{"protocol":"icmp","mode":7,"source":"x","destinations":3}"#;
    assert_eq!(kind(Rule::from_json(text)), ErrorKind::Syntax);
    let text = r#"{"protocol":"udp","mode":7,"source":"x","destinations":3}"#;
    assert_eq!(kind(Rule::from_json(text)), ErrorKind::Json);
    let text = r#"{"protocol":"udp","mode":"broadcast","source":"x","destinations":3}"#;
    assert_eq!(kind(Rule::from_json(text)), ErrorKind::Config);
}

#[test]
fn other_members_are_passed_over() {
    let text = r#"{"comment":"x","protocol":"udp","mode":"broadcast","source":"1.2.3.4:5","destinations":[],"extra":[1,2]}"#;
    assert_eq!(
        Rule::from_json(text),
        Ok(Rule {
            protocol: Protocol::Udp,
            mode: Mode::Broadcast,
            source: Endpoint { address: Address::V4(Ipv4(1, 2, 3, 4)), port: 5 },
            destinations: vec![]
        })
    );
}

#[test]
fn values_and_text_agree() {
    let rule = Rule {
        protocol: Protocol::Udp,
        mode: Mode::RoundRobin,
        source: local(9000),
        destinations: vec![local(9001), local(9002)],
    };
    let value = rule.to_value();
    assert_eq!(value["mode"], serde_json::Value::from("round-robin"));
    assert_eq!(value["destinations"][1], serde_json::Value::from("127.0.0.1:9002"));
    assert_eq!(Rule::from_value(&value), Ok(rule));
    let web = Web::Port(Some(81));
    assert_eq!(web.to_value()["port"], serde_json::Value::from(81u64));
    assert_eq!(Web::from_value(&web.to_value()), Ok(web));
    let config = Config { web: Some(web), rules: vec![] };
    assert_eq!(Config::from_value(&config.to_value()), Ok(config));
}

#[test]
fn error_texts() {
    assert_eq!(Error::IoError("gone".to_string()).to_string(), "I/O error: gone".to_string());
    assert_eq!(Error::JsonError("bad".to_string()).to_string(), "JSON error: bad".to_string());
    assert_eq!(
        Error::ConfigError("not an address".to_string()).to_string(),
        "Config error: not an address".to_string()
    );
    assert_eq!(Error::SyntaxError("x".to_string()).to_string(), "Syntax error: x".to_string());
    assert_eq!(Error::IoError(String::new()).error_kind(), ErrorKind::Io);
}

#[test]
fn control_plane_binds_locally_by_default() {
    assert_eq!(Web::Port(Some(2357)).endpoint(), local(2357));
    assert_eq!(Web::Port(None).endpoint(), local(0));
    let remote = Endpoint { address: Address::V4(Ipv4(10, 0, 0, 7)), port: 80 };
    assert_eq!(Web::Address(remote).endpoint(), remote);
}

#[test]
fn control_plane_listens_by_default() {
    assert_eq!(router::config::DEFAULT_PORT, 8080);
    assert_eq!(Config::new().listen(), Web::Port(Some(8080)));
    let mut config = Config::new();
    config.set_port(2357);
    assert_eq!(config.listen(), Web::Port(Some(2357)));
    config.web = Some(Web::Port(None));
    assert_eq!(config.listen(), Web::Port(None));
}
