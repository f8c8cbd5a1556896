use router::config::Config;
use router::session::Rule;
use router::session::{Manager, Session};
use router::web::{
    create_rule, delete_rule, list_rules, resource, rule_from_body, service, update_rule, Effect,
    Method, Reply, Resource, Response, BODY_LIMIT,
};

const CONFIG: &str = r#"{
  "protocol": "udp",
  "mode": "broadcast",
  "source": "127.0.0.1:8080",
  "destinations": ["127.0.0.1:8081", "127.0.0.1:8082"]
}"#;

const ADD_RULE: &str = r#"{
  "protocol": "udp",
  "mode": "round-robin",
  "source": "127.0.0.1:2345",
  "destinations": ["192.168.1.1:2345", "192.168.1.136:2345"]
}"#;

const UPDATE_RULE: &str = r#"{
  "protocol": "udp",
  "mode": "round-robin",
  "source": "127.0.0.1:2345",
  "destinations": ["192.168.1.136:2345"]
}"#;

const TCP_BROADCAST: &str = r#"{
  "protocol": "tcp",
  "mode": "broadcast",
  "source": "127.0.0.1:7000",
  "destinations": ["127.0.0.1:7001", "127.0.0.1:7002"]
}"#;

/// A manager that was started with one rule and a web endpoint.
fn harness(rule: Rule, port: u16) -> Manager {
    let mut config = Config::new();
    config.set_port(port);
    config.add_rule(rule);
    let mut manager = Manager::new(&config);
    for rule in config.rules {
        assert!(manager.add_rule(rule).is_ok());
    }
    assert!(manager.start().is_some());
    manager
}

fn send_request(manager: &mut Manager, method: &str, resource: &str, body: &str) -> Reply {
    service(manager, Method::from_name(method), resource, body.as_bytes())
}

fn rules_of(body: &str) -> Vec<Rule> {
    let document: serde_json::Value = serde_json::from_str(body).unwrap();
    document.as_array().unwrap().iter().map(|item| Rule::from_value(item).unwrap()).collect()
}

fn expect_rules(manager: &mut Manager, expected_rules: Vec<Rule>) {
    let reply = send_request(manager, "GET", "/rules", "");
    assert_eq!(reply.response.status, 200);
    assert!(matches!(reply.effect, Effect::Nothing));
    assert_eq!(rules_of(&reply.response.body), expected_rules);
}

fn check_add_rule(manager: &mut Manager, json: &'static str) -> usize {
    let reply = send_request(manager, "POST", "/rules", json);
    assert_eq!(reply.response.status, 201);
    assert_eq!(reply.response.body, r#"{"rule_id":1}"#.to_string());
    match reply.effect {
        Effect::Spawn(launch) => {
            assert_eq!(launch.id, 1);
            assert!(matches!(launch.session, Session::Udp(_)));
        }
        _ => panic!("a created rule has a session to spawn"),
    }
    expect_rules(
        manager,
        vec![Rule::from_json(CONFIG).unwrap(), Rule::from_json(ADD_RULE).unwrap()],
    );
    1
}

fn check_update_rule(manager: &mut Manager, rule_no: usize, json: &'static str) {
    let path = format!("/rules/{}", rule_no);
    let reply = send_request(manager, "PUT", &path, json);
    assert_eq!(reply.response.status, 200);
    assert!(matches!(reply.effect, Effect::Nothing));
    expect_rules(
        manager,
        vec![Rule::from_json(CONFIG).unwrap(), Rule::from_json(UPDATE_RULE).unwrap()],
    );
}

fn check_delete_rule(manager: &mut Manager, rule_no: usize) {
    let path = format!("/rules/{}", rule_no);
    let reply = send_request(manager, "DELETE", &path, "");
    assert_eq!(reply.response.status, 204);
    assert!(matches!(reply.effect, Effect::Cancel(id) if id == rule_no));
    expect_rules(manager, vec![Rule::from_json(CONFIG).unwrap()]);
    let reply = send_request(manager, "DELETE", &path, "");
    assert_eq!(reply.response.status, 404);
    assert!(matches!(reply.effect, Effect::Nothing));
}

#[test]
fn test_json() {
    let mut harness = harness(Rule::from_json(CONFIG).unwrap(), 2357);

    // Ask for the rules that the harness was configured with. We
    // should find them all.
    expect_rules(&mut harness, vec![Rule::from_json(CONFIG).unwrap()]);

    // Try to add one rule and check that it is there when we ask for
    // rules.
    let rule_no = check_add_rule(&mut harness, ADD_RULE);

    // Test updating the added rule
    check_update_rule(&mut harness, rule_no, UPDATE_RULE);

    // Check that deleting the rule actually deletes it.
    check_delete_rule(&mut harness, rule_no);
}

#[test]
fn dynamic_create_via_http() {
    let mut manager = harness(Rule::from_json(CONFIG).unwrap(), 2357);
    let reply = send_request(&mut manager, "POST", "/rules", ADD_RULE);
    assert_eq!(reply.response, Response { status: 201, body: r#"{"rule_id":1}"#.to_string() });
    let reply = send_request(&mut manager, "GET", "/rules", "");
    assert_eq!(reply.response.status, 200);
    let rules = rules_of(&reply.response.body);
    assert_eq!(rules.len(), 2);
    assert_eq!(rules[0], Rule::from_json(CONFIG).unwrap());
    assert_eq!(rules[1], Rule::from_json(ADD_RULE).unwrap());
    assert_eq!(manager.database().get_rule(1), Some(&Rule::from_json(ADD_RULE).unwrap()));
}

#[test]
fn delete_then_re_delete() {
    let mut manager = harness(Rule::from_json(CONFIG).unwrap(), 2357);
    send_request(&mut manager, "POST", "/rules", ADD_RULE);
    assert_eq!(send_request(&mut manager, "DELETE", "/rules/1", "").response.status, 204);
    let reply = send_request(&mut manager, "GET", "/rules", "");
    assert_eq!(rules_of(&reply.response.body).len(), 1);
    assert_eq!(send_request(&mut manager, "DELETE", "/rules/1", "").response.status, 404);
    // The identifier is not handed out again.
    let reply = send_request(&mut manager, "POST", "/rules", ADD_RULE);
    assert_eq!(reply.response, Response { status: 201, body: r#"{"rule_id":2}"#.to_string() });
}

#[test]
fn reject_tcp_broadcast() {
    let mut manager = harness(Rule::from_json(CONFIG).unwrap(), 2357);
    let before = send_request(&mut manager, "GET", "/rules", "").response;
    let reply = send_request(&mut manager, "POST", "/rules", TCP_BROADCAST);
    assert_eq!(reply.response, Response { status: 400, body: String::new() });
    assert!(matches!(reply.effect, Effect::Nothing));
    assert_eq!(send_request(&mut manager, "GET", "/rules", "").response, before);
    assert_eq!(manager.database().next_id(), 1);
}

#[test]
fn list_body_is_exact() {
    let mut manager = Manager::new(&Config::new());
    assert_eq!(list_rules(manager.database()), Response { status: 200, body: "[]".to_string() });
    assert!(manager.add_rule(Rule::from_json(CONFIG).unwrap()).is_ok());
    assert!(manager.add_rule(Rule::from_json(ADD_RULE).unwrap()).is_ok());
    assert_eq!(
        list_rules(manager.database()),
        Response {
            status: 200,
            body: concat_rules(&[
                r#"{"protocol":"udp","mode":"broadcast","source":"127.0.0.1:8080","destinations":["127.0.0.1:8081","127.0.0.1:8082"]}"#,
                r#"{"protocol":"udp","mode":"round-robin","source":"127.0.0.1:2345","destinations":["192.168.1.1:2345","192.168.1.136:2345"]}"#,
            ])
        }
    );
}

fn concat_rules(rules: &[&str]) -> String {
    format!("[{}]", rules.join(","))
}

#[test]
fn bad_bodies_are_bad_requests() {
    let mut manager = Manager::new(&Config::new());
    for body in ["", "{", "[]", r#"{"protocol":"udp"}"#, "not json"] {
        let reply = create_rule(&mut manager, body.as_bytes());
        assert_eq!(reply.response, Response { status: 400, body: String::new() }, "{}", body);
    }
    let reply = create_rule(&mut manager, &[0xff, 0xfe]);
    assert_eq!(reply.response.status, 400);
    // An empty list of destinations reads as a rule, which the store refuses.
    let unserved = r#"{"protocol":"udp","mode":"broadcast","source":"1.2.3.4:5","destinations":[]}"#;
    assert!(rule_from_body(unserved.as_bytes()).is_some());
    assert_eq!(create_rule(&mut manager, unserved.as_bytes()).response.status, 400);
    assert_eq!(manager.database().next_id(), 0);
}

#[test]
fn body_limit_is_16_kib() {
    assert_eq!(BODY_LIMIT, 16 * 1024);
    let mut manager = Manager::new(&Config::new());
    let rule = r#"{"protocol":"udp","mode":"broadcast","source":"1.2.3.4:5","destinations":["1.2.3.4:6"]}"#;
    let mut body = rule.to_string();
    while body.len() < BODY_LIMIT {
        body.push(' ');
    }
    assert_eq!(body.len(), BODY_LIMIT);
    assert_eq!(create_rule(&mut manager, body.as_bytes()).response.status, 201);
    body.push(' ');
    assert_eq!(create_rule(&mut manager, body.as_bytes()).response.status, 413);
    assert_eq!(update_rule(&mut manager, 0, body.as_bytes()).response.status, 413);
    assert_eq!(manager.database().next_id(), 1);
}

#[test]
fn update_statuses() {
    let mut manager = harness(Rule::from_json(CONFIG).unwrap(), 2357);
    assert_eq!(update_rule(&mut manager, 0, b"{").response.status, 400);
    assert_eq!(update_rule(&mut manager, 1, UPDATE_RULE.as_bytes()).response.status, 404);
    assert_eq!(update_rule(&mut manager, 0, TCP_BROADCAST.as_bytes()).response.status, 400);
    assert_eq!(update_rule(&mut manager, 0, UPDATE_RULE.as_bytes()).response.status, 200);
    assert_eq!(manager.database().get_rule(0), Some(&Rule::from_json(UPDATE_RULE).unwrap()));
    assert_eq!(delete_rule(&mut manager, 0).response.status, 204);
    assert_eq!(update_rule(&mut manager, 0, UPDATE_RULE.as_bytes()).response.status, 404);
    assert_eq!(manager.database().get_rule(0), None);
}

#[test]
fn paths_and_methods() {
    assert_eq!(resource("/rules"), Some(Resource::Rules));
    assert_eq!(resource("/rules/0"), Some(Resource::Rule(0)));
    assert_eq!(resource("/rules/17"), Some(Resource::Rule(17)));
    assert_eq!(resource("/rules/007"), Some(Resource::Rule(7)));
    for path in ["", "/", "/rule", "/rules/", "/rules/x", "/rules/1/", "/rules/-1", "/Rules", "rules", "/rules/99999999999999999999999"] {
        assert_eq!(resource(path), None, "{}", path);
    }
    assert_eq!(Method::from_name("GET"), Method::Get);
    assert_eq!(Method::from_name("POST"), Method::Post);
    assert_eq!(Method::from_name("PUT"), Method::Put);
    assert_eq!(Method::from_name("DELETE"), Method::Delete);
    assert_eq!(Method::from_name("PATCH"), Method::Other);
    assert_eq!(Method::from_name("get"), Method::Other);

    let mut manager = harness(Rule::from_json(CONFIG).unwrap(), 2357);
    assert_eq!(send_request(&mut manager, "GET", "/", "").response.status, 404);
    assert_eq!(send_request(&mut manager, "POST", "/rules/x", ADD_RULE).response.status, 404);
    assert_eq!(send_request(&mut manager, "PUT", "/rules", ADD_RULE).response.status, 405);
    assert_eq!(send_request(&mut manager, "DELETE", "/rules", "").response.status, 405);
    assert_eq!(send_request(&mut manager, "GET", "/rules/0", "").response.status, 405);
    assert_eq!(send_request(&mut manager, "POST", "/rules/0", ADD_RULE).response.status, 405);
    assert_eq!(send_request(&mut manager, "PATCH", "/rules", "").response.status, 405);
    assert_eq!(manager.database().list_rules().len(), 1);
    assert_eq!(Response::plain(204), Response { status: 204, body: String::new() });
}
