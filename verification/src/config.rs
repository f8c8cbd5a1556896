//! The configuration: the address of the control plane and the rules to
//! start with, and the JSON form of both.
//!
//! A rule is written as
//! `{"protocol": "udp" | "tcp", "mode": "broadcast" | "round-robin",
//! "source": "<ip>:<port>", "destinations": ["<ip>:<port>", ...]}`, where
//! `mode` may be left out: a UDP rule then broadcasts, and a TCP rule
//! takes its destinations in turn;
//! and a configuration as `{"web": ..., "rules": [...]}`, where `web` may be
//! left out or be `null`, `{"port": <number>}`, `{"port": "*"}` for a port
//! that the system picks, or `{"address": "<ip>:<port>"}`.

use vstd::prelude::*;
use crate::endpoint::{
    endpoint_of, endpoint_text, lemma_endpoint_round_trip, port_of, Address, Endpoint,
};
use crate::ipv4::Ipv4;
use crate::json::{
    array_value, distinct_names, is_null, items_of, member, member_models, member_of,
    object_value, parse_value, parsed, print_value, printed, string_value, text_of, unsigned_of,
    unsigned_value, value_model, value_models, Json, JsonNumber,
};
use crate::rules::{Protocol, Rule, RuleModel};
use crate::strategy::Mode;
use crate::text::{chars_of, decimal_text, eq_str, parse_number, push_decimal};

verus! {

/// Where the control plane listens.
#[derive(Clone, Copy, Debug, PartialEq, Eq, Structural)]
pub enum Web {
    /// On the local host, at this port, or at one that the system picks.
    Port(Option<u16>),
    /// At this address.
    Address(Endpoint),
}

/// The port of the control plane where the configuration names none.
pub const DEFAULT_PORT: u16 = 8080;

/// Where the control plane listens under a configuration: where the
/// configuration says, and on the local host at the default port where it
/// says nothing.
pub open spec fn listen_address(web: Option<Web>) -> Web {
    match web {
        Some(web) => web,
        None => Web::Port(Some(DEFAULT_PORT)),
    }
}

/// A configuration as a mathematical value.
pub struct ConfigModel {
    pub web: Option<Web>,
    pub rules: Seq<RuleModel>,
}

/// The rules of `rules` as mathematical values.
pub open spec fn rule_models(rules: Seq<Rule>) -> Seq<RuleModel> {
    rules.map_values(|rule: Rule| rule@)
}

/// Configuration with rules.
#[derive(Debug, PartialEq)]
pub struct Config {
    pub web: Option<Web>,
    pub rules: Vec<Rule>,
}

impl View for Config {
    type V = ConfigModel;

    open spec fn view(&self) -> ConfigModel {
        ConfigModel { web: self.web, rules: rule_models(self.rules@) }
    }
}

/// What went wrong with a configuration, by kind.
#[derive(Clone, Copy, Debug, PartialEq, Eq, Structural)]
pub enum ErrorKind {
    Io,
    Json,
    Config,
    Syntax,
}

/// What went wrong with a configuration, with a message.
#[derive(Debug, PartialEq)]
pub enum Error {
    /// The configuration could not be read from where it is kept.
    IoError(String),
    /// The text is no JSON document, or the document lacks a member or has
    /// one of the wrong type.
    JsonError(String),
    /// A text that should be an endpoint is none.
    ConfigError(String),
    /// A name stands for no protocol or mode, or a text for no address of
    /// the control plane.
    SyntaxError(String),
}

impl Error {
    /// The kind of the error.
    pub open spec fn kind(self) -> ErrorKind {
        match self {
            Error::IoError(_) => ErrorKind::Io,
            Error::JsonError(_) => ErrorKind::Json,
            Error::ConfigError(_) => ErrorKind::Config,
            Error::SyntaxError(_) => ErrorKind::Syntax,
        }
    }

    /// The text of the error: its kind, and its message.
    pub open spec fn display(self) -> Seq<char> {
        match self {
            Error::IoError(message) => "I/O error: "@ + message@,
            Error::JsonError(message) => "JSON error: "@ + message@,
            Error::ConfigError(message) => "Config error: "@ + message@,
            Error::SyntaxError(message) => "Syntax error: "@ + message@,
        }
    }

    /// The kind of the error.
    pub fn error_kind(&self) -> (kind: ErrorKind)
        ensures
            kind == self.kind(),
    {
        match self {
            Error::IoError(_) => ErrorKind::Io,
            Error::JsonError(_) => ErrorKind::Json,
            Error::ConfigError(_) => ErrorKind::Config,
            Error::SyntaxError(_) => ErrorKind::Syntax,
        }
    }

    /// The text of the error: its kind, and its message.
    pub fn to_string(&self) -> (text: String)
        ensures
            text@ == self.display(),
    {
        match self {
            Error::IoError(message) => String::from_str("I/O error: ").concat(message.as_str()),
            Error::JsonError(message) => String::from_str("JSON error: ").concat(message.as_str()),
            Error::ConfigError(message) => String::from_str("Config error: ").concat(
                message.as_str(),
            ),
            Error::SyntaxError(message) => String::from_str("Syntax error: ").concat(
                message.as_str(),
            ),
        }
    }
}

/// The kind of error in an outcome, or its value.
pub open spec fn rule_outcome(outcome: Result<Rule, Error>) -> Result<RuleModel, ErrorKind> {
    match outcome {
        Ok(rule) => Ok(rule@),
        Err(error) => Err(error.kind()),
    }
}

/// The kind of error in an outcome, or its value.
pub open spec fn config_outcome(outcome: Result<Config, Error>) -> Result<ConfigModel, ErrorKind> {
    match outcome {
        Ok(config) => Ok(config@),
        Err(error) => Err(error.kind()),
    }
}

/// The endpoint that a document stands for: a string that writes one.
pub open spec fn decode_endpoint(json: Json) -> Result<Endpoint, ErrorKind> {
    match json.text() {
        None => Err(ErrorKind::Json),
        Some(text) => match endpoint_of(text) {
            Some(endpoint) => Ok(endpoint),
            None => Err(ErrorKind::Config),
        },
    }
}

/// The endpoints that documents stand for, or the error of the first that
/// stands for none.
pub open spec fn decode_endpoints(items: Seq<Json>) -> Result<Seq<Endpoint>, ErrorKind>
    decreases items.len(),
{
    if items.len() == 0 {
        Ok(Seq::empty())
    } else {
        match decode_endpoints(items.drop_last()) {
            Err(kind) => Err(kind),
            Ok(before) => match decode_endpoint(items.last()) {
                Err(kind) => Err(kind),
                Ok(endpoint) => Ok(before.push(endpoint)),
            },
        }
    }
}

/// The protocol that the member `protocol` stands for: `"udp"` or `"tcp"`.
pub open spec fn decode_protocol(member: Option<Json>) -> Result<Protocol, ErrorKind> {
    match member {
        None => Err(ErrorKind::Json),
        Some(json) => match json.text() {
            None => Err(ErrorKind::Json),
            Some(name) => match Protocol::of_json_name(name) {
                Some(protocol) => Ok(protocol),
                None => Err(ErrorKind::Syntax),
            },
        },
    }
}

/// The mode that the member `mode` stands for: `"broadcast"` or
/// `"round-robin"`; where the member is left out, the default mode of the
/// protocol.
pub open spec fn decode_mode(member: Option<Json>, protocol: Protocol) -> Result<Mode, ErrorKind> {
    match member {
        None => Ok(Mode::default_of(protocol)),
        Some(json) => match json.text() {
            None => Err(ErrorKind::Json),
            Some(name) => match Mode::of_json_name(name) {
                Some(mode) => Ok(mode),
                None => Err(ErrorKind::Syntax),
            },
        },
    }
}

/// The endpoints that the member `destinations` stands for: an array of
/// endpoints.
pub open spec fn decode_destinations(member: Option<Json>) -> Result<Seq<Endpoint>, ErrorKind> {
    match member {
        None => Err(ErrorKind::Json),
        Some(json) => match json.items() {
            None => Err(ErrorKind::Json),
            Some(items) => decode_endpoints(items),
        },
    }
}

/// The endpoint that the member `source` stands for.
pub open spec fn decode_source(member: Option<Json>) -> Result<Endpoint, ErrorKind> {
    match member {
        None => Err(ErrorKind::Json),
        Some(json) => decode_endpoint(json),
    }
}

/// The rule that a document stands for: an object with the members
/// `protocol`, `mode`, `source` and `destinations`, read in this order; the
/// first that is wrong decides the error. Other members are passed over.
/// Whether the rule is valid is not asked here.
pub open spec fn decode_rule(json: Json) -> Result<RuleModel, ErrorKind> {
    match decode_protocol(json.member("protocol"@)) {
        Err(kind) => Err(kind),
        Ok(protocol) => match decode_mode(json.member("mode"@), protocol) {
            Err(kind) => Err(kind),
            Ok(mode) => match decode_source(json.member("source"@)) {
                Err(kind) => Err(kind),
                Ok(source) => match decode_destinations(json.member("destinations"@)) {
                    Err(kind) => Err(kind),
                    Ok(destinations) => Ok(RuleModel { protocol, mode, source, destinations }),
                },
            },
        },
    }
}

/// The rules that documents stand for, or the error of the first that
/// stands for none.
pub open spec fn decode_rules(items: Seq<Json>) -> Result<Seq<RuleModel>, ErrorKind>
    decreases items.len(),
{
    if items.len() == 0 {
        Ok(Seq::empty())
    } else {
        match decode_rules(items.drop_last()) {
            Err(kind) => Err(kind),
            Ok(before) => match decode_rule(items.last()) {
                Err(kind) => Err(kind),
                Ok(rule) => Ok(before.push(rule)),
            },
        }
    }
}

/// The port that the member `port` stands for: a number up to 65535, or
/// `"*"` or `null` for a port that the system picks.
pub open spec fn decode_port(json: Json) -> Result<Option<u16>, ErrorKind> {
    if json is Null || json.text() == Some("*"@) {
        Ok(None)
    } else {
        match json.unsigned() {
            Some(number) => if number <= 65535 {
                Ok(Some(number as u16))
            } else {
                Err(ErrorKind::Json)
            },
            None => Err(ErrorKind::Json),
        }
    }
}

/// The address of the control plane that a document stands for: an object
/// with the member `port`, or else with the member `address`.
pub open spec fn decode_web(json: Json) -> Result<Web, ErrorKind> {
    match json.member("port"@) {
        Some(port) => match decode_port(port) {
            Ok(port) => Ok(Web::Port(port)),
            Err(kind) => Err(kind),
        },
        None => match json.member("address"@) {
            Some(address) => match decode_endpoint(address) {
                Ok(endpoint) => Ok(Web::Address(endpoint)),
                Err(kind) => Err(kind),
            },
            None => Err(ErrorKind::Json),
        },
    }
}

/// What the member `web` stands for; it may be left out or be `null`.
pub open spec fn decode_optional_web(member: Option<Json>) -> Result<Option<Web>, ErrorKind> {
    match member {
        None => Ok(None),
        Some(json) => if json is Null {
            Ok(None)
        } else {
            match decode_web(json) {
                Ok(web) => Ok(Some(web)),
                Err(kind) => Err(kind),
            }
        },
    }
}

/// What the member `rules` stands for: an array of rules.
pub open spec fn decode_rule_list(member: Option<Json>) -> Result<Seq<RuleModel>, ErrorKind> {
    match member {
        None => Err(ErrorKind::Json),
        Some(json) => match json.items() {
            None => Err(ErrorKind::Json),
            Some(items) => decode_rules(items),
        },
    }
}

/// The configuration that a document stands for: an object with the
/// members `web`, which may be missing, and `rules`, read in this order.
pub open spec fn decode_config(json: Json) -> Result<ConfigModel, ErrorKind> {
    match decode_optional_web(json.member("web"@)) {
        Err(kind) => Err(kind),
        Ok(web) => match decode_rule_list(json.member("rules"@)) {
            Err(kind) => Err(kind),
            Ok(rules) => Ok(ConfigModel { web, rules }),
        },
    }
}

/// The document for an endpoint: its text.
pub open spec fn endpoint_json(endpoint: Endpoint) -> Json {
    Json::String(endpoint_text(endpoint))
}

/// The documents for endpoints.
pub open spec fn endpoints_json(endpoints: Seq<Endpoint>) -> Seq<Json> {
    endpoints.map_values(|endpoint: Endpoint| endpoint_json(endpoint))
}

/// The document for a rule: an object with the members `protocol`, `mode`,
/// `source` and `destinations`, in this order.
pub open spec fn rule_json(rule: RuleModel) -> Json {
    Json::Object(
        seq![
            ("protocol"@, Json::String(rule.protocol.json_name())),
            ("mode"@, Json::String(rule.mode.json_name())),
            ("source"@, endpoint_json(rule.source)),
            ("destinations"@, Json::Array(endpoints_json(rule.destinations))),
        ],
    )
}

/// The documents for rules.
pub open spec fn rules_json(rules: Seq<RuleModel>) -> Seq<Json> {
    rules.map_values(|rule: RuleModel| rule_json(rule))
}

/// The document for the address of the control plane.
pub open spec fn web_json(web: Web) -> Json {
    match web {
        Web::Port(Some(port)) => Json::Object(
            seq![("port"@, Json::Number(JsonNumber::Unsigned(port as u64)))],
        ),
        Web::Port(None) => Json::Object(seq![("port"@, Json::String("*"@))]),
        Web::Address(endpoint) => Json::Object(seq![("address"@, endpoint_json(endpoint))]),
    }
}

/// The document for a configuration: an object with the member `web`,
/// where the configuration has one, and the member `rules`.
pub open spec fn config_json(config: ConfigModel) -> Json {
    match config.web {
        Some(web) => Json::Object(
            seq![("web"@, web_json(web)), ("rules"@, Json::Array(rules_json(config.rules)))],
        ),
        None => Json::Object(seq![("rules"@, Json::Array(rules_json(config.rules)))]),
    }
}

/// An error in the first items of a list is the error of the list.
proof fn lemma_endpoints_error(items: Seq<Json>, head: int)
    requires
        0 <= head <= items.len(),
        decode_endpoints(items.take(head)) is Err,
    ensures
        decode_endpoints(items) == decode_endpoints(items.take(head)),
    decreases items.len() - head,
{
    if head < items.len() {
        assert(items.take(head + 1).drop_last() =~= items.take(head));
        lemma_endpoints_error(items, head + 1);
    } else {
        assert(items.take(head) =~= items);
    }
}

/// An error in the first items of a list is the error of the list.
proof fn lemma_rules_error(items: Seq<Json>, head: int)
    requires
        0 <= head <= items.len(),
        decode_rules(items.take(head)) is Err,
    ensures
        decode_rules(items) == decode_rules(items.take(head)),
    decreases items.len() - head,
{
    if head < items.len() {
        assert(items.take(head + 1).drop_last() =~= items.take(head));
        lemma_rules_error(items, head + 1);
    } else {
        assert(items.take(head) =~= items);
    }
}

/// An error of the kind `Json` with this message.
fn json_error(message: &str) -> (error: Error)
    ensures
        error.kind() == ErrorKind::Json,
{
    Error::JsonError(String::from_str(message))
}

/// Reads an endpoint from a document.
fn endpoint_from(value: &serde_json::Value) -> (outcome: Result<Endpoint, Error>)
    ensures
        match outcome {
            Ok(endpoint) => decode_endpoint(value_model(*value)) == Ok::<Endpoint, ErrorKind>(
                endpoint,
            ),
            Err(error) => decode_endpoint(value_model(*value)) == Err::<Endpoint, ErrorKind>(
                error.kind(),
            ),
        },
{
    match text_of(value) {
        None => Err(json_error("an endpoint must be a string")),
        Some(text) => match Endpoint::parse(text) {
            Some(endpoint) => Ok(endpoint),
            None => Err(Error::ConfigError(String::from_str("not an address"))),
        },
    }
}

/// Reads the endpoints from the items of an array.
fn endpoints_from(items: &Vec<serde_json::Value>) -> (outcome: Result<Vec<Endpoint>, Error>)
    ensures
        match outcome {
            Ok(endpoints) => decode_endpoints(value_models(items@)) == Ok::<
                Seq<Endpoint>,
                ErrorKind,
            >(endpoints@),
            Err(error) => decode_endpoints(value_models(items@)) == Err::<
                Seq<Endpoint>,
                ErrorKind,
            >(error.kind()),
        },
{
    let ghost models = value_models(items@);
    let mut endpoints: Vec<Endpoint> = Vec::new();
    let mut i: usize = 0;
    while i < items.len()
        invariant
            i <= items.len(),
            models == value_models(items@),
            decode_endpoints(models.take(i as int)) == Ok::<Seq<Endpoint>, ErrorKind>(endpoints@),
        decreases items.len() - i,
    {
        proof {
            assert(models.take(i + 1).drop_last() =~= models.take(i as int));
            assert(models.take(i + 1).last() == value_model(items@[i as int]));
        }
        match endpoint_from(&items[i]) {
            Ok(endpoint) => {
                endpoints.push(endpoint);
            },
            Err(error) => {
                proof {
                    lemma_endpoints_error(models, i + 1);
                }
                return Err(error);
            },
        }
        i += 1;
    }
    proof {
        assert(models.take(i as int) =~= models);
    }
    Ok(endpoints)
}

/// The document for an endpoint.
fn endpoint_value(endpoint: &Endpoint) -> (value: serde_json::Value)
    ensures
        value_model(value) == endpoint_json(*endpoint),
{
    let text = endpoint.to_text();
    string_value(text.as_str())
}

/// The documents for endpoints.
fn endpoint_values(endpoints: &Vec<Endpoint>) -> (values: Vec<serde_json::Value>)
    ensures
        value_models(values@) == endpoints_json(endpoints@),
{
    let mut values: Vec<serde_json::Value> = Vec::new();
    let mut i: usize = 0;
    while i < endpoints.len()
        invariant
            i <= endpoints.len(),
            values.len() == i,
            value_models(values@) == endpoints_json(endpoints@.take(i as int)),
        decreases endpoints.len() - i,
    {
        let value = endpoint_value(&endpoints[i]);
        proof {
            let before = value_models(values@);
            let after = value_models(values@.push(value));
            let wanted = endpoints_json(endpoints@.take(i + 1));
            assert forall|k: int| 0 <= k < after.len() implies after[k] == wanted[k] by {
                if k < i {
                    assert(after[k] == before[k]);
                }
            }
        }
        values.push(value);
        i += 1;
    }
    proof {
        assert(endpoints@.take(i as int) =~= endpoints@);
    }
    values
}

impl Rule {
    /// Reads a rule from a JSON document. Whether the rule is valid is not
    /// asked here.
    pub fn from_value(value: &serde_json::Value) -> (outcome: Result<Rule, Error>)
        ensures
            rule_outcome(outcome) == decode_rule(value_model(*value)),
    {
        let protocol = match member(value, "protocol") {
            None => {
                return Err(json_error("missing field `protocol`"));
            },
            Some(inner) => match text_of(inner) {
                None => {
                    return Err(json_error("a protocol must be a string"));
                },
                Some(name) => match Protocol::from_name(name) {
                    Some(protocol) => protocol,
                    None => {
                        return Err(
                            Error::SyntaxError(
                                String::from_str("unknown protocol, expected `udp` or `tcp`"),
                            ),
                        );
                    },
                },
            },
        };
        let mode = match member(value, "mode") {
            None => Mode::default_for(protocol),
            Some(inner) => match text_of(inner) {
                None => {
                    return Err(json_error("a mode must be a string"));
                },
                Some(name) => match Mode::from_name(name) {
                    Some(mode) => mode,
                    None => {
                        return Err(
                            Error::SyntaxError(
                                String::from_str(
                                    "unknown mode, expected `broadcast` or `round-robin`",
                                ),
                            ),
                        );
                    },
                },
            },
        };
        let source = match member(value, "source") {
            None => {
                return Err(json_error("missing field `source`"));
            },
            Some(inner) => match endpoint_from(inner) {
                Ok(source) => source,
                Err(error) => {
                    return Err(error);
                },
            },
        };
        let destinations = match member(value, "destinations") {
            None => {
                return Err(json_error("missing field `destinations`"));
            },
            Some(inner) => match items_of(inner) {
                None => {
                    return Err(json_error("the destinations must be an array"));
                },
                Some(items) => match endpoints_from(items) {
                    Ok(destinations) => destinations,
                    Err(error) => {
                        return Err(error);
                    },
                },
            },
        };
        Ok(Rule { protocol, mode, source, destinations })
    }

    /// The JSON document for the rule.
    pub fn to_value(&self) -> (value: serde_json::Value)
        ensures
            value_model(value) == rule_json(self@),
    {
        let mut members: Vec<(String, serde_json::Value)> = Vec::new();
        members.push((String::from_str("protocol"), string_value(self.protocol.name())));
        members.push((String::from_str("mode"), string_value(self.mode.name())));
        members.push((String::from_str("source"), endpoint_value(&self.source)));
        members.push(
            (String::from_str("destinations"), array_value(endpoint_values(&self.destinations))),
        );
        proof {
            lemma_rule_names();
            assert(member_models(members@) =~= rule_json(self@)->Object_0);
        }
        object_value(members)
    }

    /// Reads a rule from its JSON text. Whether the rule is valid is not
    /// asked here.
    pub fn from_json(data: &str) -> (outcome: Result<Rule, Error>)
        ensures
            rule_outcome(outcome) == match parsed(data@) {
                Some(json) => decode_rule(json),
                None => Err(ErrorKind::Json),
            },
    {
        match parse_value(data) {
            Ok(value) => Rule::from_value(&value),
            Err(message) => Err(Error::JsonError(message)),
        }
    }

    /// The JSON text of the rule.
    pub fn to_json(&self) -> (outcome: Result<String, Error>)
        ensures
            outcome matches Ok(text) && text@ == printed(rule_json(self@)),
    {
        let value = self.to_value();
        Ok(print_value(&value))
    }
}

/// The names of the members of a rule differ from each other.
proof fn lemma_rule_names()
    ensures
        "protocol"@ != "mode"@,
        "protocol"@ != "source"@,
        "protocol"@ != "destinations"@,
        "mode"@ != "source"@,
        "mode"@ != "destinations"@,
        "source"@ != "destinations"@,
        "protocol"@.len() == 8,
        "mode"@.len() == 4,
        "source"@.len() == 6,
        "destinations"@.len() == 12,
{
    reveal_strlit("protocol");
    reveal_strlit("mode");
    reveal_strlit("source");
    reveal_strlit("destinations");
    assert("protocol"@.len() == 8);
    assert("mode"@.len() == 4);
    assert("source"@.len() == 6);
    assert("destinations"@.len() == 12);
}

impl core::str::FromStr for Rule {
    type Err = Error;

    /// Reads a rule from its JSON text.
    fn from_str(text: &str) -> (outcome: Result<Rule, Error>)
        ensures
            rule_outcome(outcome) == match parsed(text@) {
                Some(json) => decode_rule(json),
                None => Err(ErrorKind::Json),
            },
    {
        Rule::from_json(text)
    }
}

impl core::str::FromStr for Endpoint {
    type Err = Error;

    /// Reads an endpoint from its text, `a.b.c.d:port` or `[address]:port`.
    fn from_str(text: &str) -> (outcome: Result<Endpoint, Error>)
        ensures
            match outcome {
                Ok(endpoint) => endpoint_of(text@) == Some(endpoint),
                Err(error) => endpoint_of(text@) is None && error.kind() == ErrorKind::Config,
            },
    {
        match Endpoint::parse(text) {
            Some(endpoint) => Ok(endpoint),
            None => Err(Error::ConfigError("not an address".to_owned())),
        }
    }
}

/// The number that `s` writes as a `u16`: digits, with or without a `+`
/// before them, and no greater than 65535.
pub open spec fn u16_of(s: Seq<char>) -> Option<u16> {
    if s.len() >= 1 && s[0] == '+' {
        port_of(s.skip(1))
    } else {
        port_of(s)
    }
}

impl Web {
    /// The address of the control plane that a text names: an endpoint, or
    /// else a port, or else `*` for a port that the system picks.
    pub open spec fn named(text: Seq<char>) -> Option<Web> {
        match endpoint_of(text) {
            Some(endpoint) => Some(Web::Address(endpoint)),
            None => match u16_of(text) {
                Some(port) => Some(Web::Port(Some(port))),
                None => if text == "*"@ {
                    Some(Web::Port(None))
                } else {
                    None
                },
            },
        }
    }

    /// The display form of the address.
    pub open spec fn display(self) -> Seq<char> {
        match self {
            Web::Port(Some(port)) => "localhost:"@ + decimal_text(port as nat),
            Web::Port(None) => "localhost:*"@,
            Web::Address(endpoint) => endpoint_text(endpoint),
        }
    }

    /// Where the control plane binds: the address itself, or the local
    /// host, 127.0.0.1, at the port, with port 0 for one that the system
    /// picks.
    pub open spec fn bind_address(self) -> Endpoint {
        match self {
            Web::Port(Some(port)) => Endpoint { address: Address::V4(Ipv4(127, 0, 0, 1)), port },
            Web::Port(None) => Endpoint { address: Address::V4(Ipv4(127, 0, 0, 1)), port: 0 },
            Web::Address(endpoint) => endpoint,
        }
    }

    /// Where the control plane binds.
    pub fn endpoint(&self) -> (endpoint: Endpoint)
        ensures
            endpoint == self.bind_address(),
    {
        match self {
            Web::Port(Some(port)) => Endpoint { address: Address::V4(Ipv4(127, 0, 0, 1)), port: *port },
            Web::Port(None) => Endpoint { address: Address::V4(Ipv4(127, 0, 0, 1)), port: 0 },
            Web::Address(endpoint) => *endpoint,
        }
    }

    /// The display form of the address: `localhost:` and the port, or `*`
    /// where the system picks it, or the address itself.
    pub fn to_string(&self) -> (text: String)
        ensures
            text@ == self.display(),
    {
        match self {
            Web::Port(Some(port)) => {
                let mut text = String::from_str("localhost:");
                push_decimal(&mut text, *port as u64);
                text
            },
            Web::Port(None) => String::from_str("localhost:*"),
            Web::Address(endpoint) => endpoint.to_text(),
        }
    }

    /// Reads the address of the control plane from a JSON document.
    pub fn from_value(value: &serde_json::Value) -> (outcome: Result<Web, Error>)
        ensures
            match outcome {
                Ok(web) => decode_web(value_model(*value)) == Ok::<Web, ErrorKind>(web),
                Err(error) => decode_web(value_model(*value)) == Err::<Web, ErrorKind>(
                    error.kind(),
                ),
            },
    {
        match member(value, "port") {
            Some(port) => {
                if is_null(port) {
                    return Ok(Web::Port(None));
                }
                match text_of(port) {
                    Some(text) => {
                        if eq_str(text, "*") {
                            return Ok(Web::Port(None));
                        }
                    },
                    None => {},
                }
                match unsigned_of(port) {
                    Some(number) => {
                        if number <= 65535 {
                            Ok(Web::Port(Some(number as u16)))
                        } else {
                            Err(json_error("a port must be no greater than 65535"))
                        }
                    },
                    None => Err(json_error("a port must be a number or `*`")),
                }
            },
            None => match member(value, "address") {
                Some(address) => match endpoint_from(address) {
                    Ok(endpoint) => Ok(Web::Address(endpoint)),
                    Err(error) => Err(error),
                },
                None => Err(json_error("expected `port` or `address`")),
            },
        }
    }

    /// The JSON document for the address of the control plane.
    pub fn to_value(&self) -> (value: serde_json::Value)
        ensures
            value_model(value) == web_json(*self),
    {
        let mut members: Vec<(String, serde_json::Value)> = Vec::new();
        match self {
            Web::Port(Some(port)) => {
                members.push((String::from_str("port"), unsigned_value(*port as u64)));
            },
            Web::Port(None) => {
                members.push((String::from_str("port"), string_value("*")));
            },
            Web::Address(endpoint) => {
                members.push((String::from_str("address"), endpoint_value(endpoint)));
            },
        }
        proof {
            assert(member_models(members@) =~= web_json(*self)->Object_0);
        }
        object_value(members)
    }
}

impl core::str::FromStr for Web {
    type Err = Error;

    /// Reads the address of the control plane from a text: an endpoint, or
    /// else a port, or else `*` for a port that the system picks.
    fn from_str(text: &str) -> (outcome: Result<Web, Error>)
        ensures
            match outcome {
                Ok(web) => Web::named(text@) == Some(web),
                Err(error) => Web::named(text@) is None && error.kind() == ErrorKind::Syntax,
            },
    {
        let chars = chars_of(text);
        proof {
            assert(chars@.subrange(0, chars@.len() as int) =~= chars@);
        }
        match Endpoint::parse_range(&chars, 0, chars.len()) {
            Some(endpoint) => {
                return Ok(Web::Address(endpoint));
            },
            None => {},
        }
        let start: usize = if chars.len() >= 1 && chars[0] == '+' {
            1
        } else {
            0
        };
        match parse_number(&chars, start, chars.len(), 65535) {
            Some(port) => {
                return Ok(Web::Port(Some(port as u16)));
            },
            None => {},
        }
        if eq_str(text, "*") {
            Ok(Web::Port(None))
        } else {
            let mut message = "'".to_owned();
            message.append(text);
            message.append("' is neither a port description nor a socket address");
            Err(Error::SyntaxError(message))
        }
    }
}

/// Reads the rules from the items of an array.
fn rules_from(items: &Vec<serde_json::Value>) -> (outcome: Result<Vec<Rule>, Error>)
    ensures
        match outcome {
            Ok(rules) => decode_rules(value_models(items@)) == Ok::<Seq<RuleModel>, ErrorKind>(
                rule_models(rules@),
            ),
            Err(error) => decode_rules(value_models(items@)) == Err::<Seq<RuleModel>, ErrorKind>(
                error.kind(),
            ),
        },
{
    let ghost models = value_models(items@);
    let mut rules: Vec<Rule> = Vec::new();
    let mut i: usize = 0;
    proof {
        assert(rule_models(rules@) =~= Seq::<RuleModel>::empty());
    }
    while i < items.len()
        invariant
            i <= items.len(),
            models == value_models(items@),
            decode_rules(models.take(i as int)) == Ok::<Seq<RuleModel>, ErrorKind>(
                rule_models(rules@),
            ),
        decreases items.len() - i,
    {
        proof {
            assert(models.take(i + 1).drop_last() =~= models.take(i as int));
        }
        match Rule::from_value(&items[i]) {
            Ok(rule) => {
                proof {
                    assert(rule_models(rules@.push(rule)) =~= rule_models(rules@).push(rule@));
                }
                rules.push(rule);
            },
            Err(error) => {
                proof {
                    lemma_rules_error(models, i + 1);
                }
                return Err(error);
            },
        }
        i += 1;
    }
    proof {
        assert(models.take(i as int) =~= models);
    }
    Ok(rules)
}

/// The documents for rules.
fn rule_values(rules: &Vec<Rule>) -> (values: Vec<serde_json::Value>)
    ensures
        value_models(values@) == rules_json(rule_models(rules@)),
{
    let mut values: Vec<serde_json::Value> = Vec::new();
    let mut i: usize = 0;
    while i < rules.len()
        invariant
            i <= rules.len(),
            values.len() == i,
            value_models(values@) == rules_json(rule_models(rules@.take(i as int))),
        decreases rules.len() - i,
    {
        let value = rules[i].to_value();
        proof {
            let before = value_models(values@);
            let after = value_models(values@.push(value));
            let wanted = rules_json(rule_models(rules@.take(i + 1)));
            assert forall|k: int| 0 <= k < after.len() implies after[k] == wanted[k] by {
                if k < i {
                    assert(after[k] == before[k]);
                }
            }
            assert(after =~= wanted);
        }
        values.push(value);
        i += 1;
    }
    proof {
        assert(rules@.take(i as int) =~= rules@);
    }
    values
}

impl Config {
    /// Create a new empty configuration.
    pub fn new() -> (config: Config)
        ensures
            config@ == (ConfigModel { web: None, rules: Seq::empty() }),
    {
        let config = Config { web: None, rules: Vec::new() };
        assert(config@.rules =~= Seq::<RuleModel>::empty());
        config
    }

    /// Where the control plane listens: where the configuration says, and
    /// on the local host at the default port where it says nothing.
    pub fn listen(&self) -> (web: Web)
        ensures
            web == listen_address(self@.web),
    {
        match self.web {
            Some(web) => web,
            None => Web::Port(Some(DEFAULT_PORT)),
        }
    }

    /// Has the control plane listen on the local host at `port`.
    pub fn set_port(&mut self, port: u16)
        ensures
            final(self)@ == (ConfigModel { web: Some(Web::Port(Some(port))), ..old(self)@ }),
    {
        self.web = Some(Web::Port(Some(port)));
    }

    /// Add a rule to the configuration.
    pub fn add_rule(&mut self, rule: Rule)
        ensures
            final(self)@ == (ConfigModel { rules: old(self)@.rules.push(rule@), ..old(self)@ }),
    {
        self.rules.push(rule);
        assert(self@.rules =~= old(self)@.rules.push(rule@));
    }

    /// Reads a configuration from a JSON document.
    pub fn from_value(value: &serde_json::Value) -> (outcome: Result<Config, Error>)
        ensures
            config_outcome(outcome) == decode_config(value_model(*value)),
    {
        let web = match member(value, "web") {
            None => None,
            Some(inner) => {
                if is_null(inner) {
                    None
                } else {
                    match Web::from_value(inner) {
                        Ok(web) => Some(web),
                        Err(error) => {
                            return Err(error);
                        },
                    }
                }
            },
        };
        let rules = match member(value, "rules") {
            None => {
                return Err(json_error("missing field `rules`"));
            },
            Some(inner) => match items_of(inner) {
                None => {
                    return Err(json_error("the rules must be an array"));
                },
                Some(items) => match rules_from(items) {
                    Ok(rules) => rules,
                    Err(error) => {
                        return Err(error);
                    },
                },
            },
        };
        Ok(Config { web, rules })
    }

    /// The JSON document for the configuration.
    pub fn to_value(&self) -> (value: serde_json::Value)
        ensures
            value_model(value) == config_json(self@),
    {
        let mut members: Vec<(String, serde_json::Value)> = Vec::new();
        match &self.web {
            Some(web) => {
                members.push((String::from_str("web"), web.to_value()));
            },
            None => {},
        }
        members.push((String::from_str("rules"), array_value(rule_values(&self.rules))));
        proof {
            reveal_strlit("web");
            reveal_strlit("rules");
            assert("web"@.len() == 3);
            assert(member_models(members@) =~= config_json(self@)->Object_0);
        }
        object_value(members)
    }

    /// Reads a configuration from its JSON text.
    pub fn from_json(json: &str) -> (outcome: Result<Config, Error>)
        ensures
            config_outcome(outcome) == match parsed(json@) {
                Some(document) => decode_config(document),
                None => Err(ErrorKind::Json),
            },
    {
        match parse_value(json) {
            Ok(value) => Config::from_value(&value),
            Err(message) => Err(Error::JsonError(message)),
        }
    }

    /// The display form of the configuration: its JSON text.
    pub fn to_string(&self) -> (text: String)
        ensures
            text@ == printed(config_json(self@)),
    {
        let value = self.to_value();
        print_value(&value)
    }

    /// The JSON text of the configuration.
    pub fn to_json(&self) -> (outcome: Result<String, Error>)
        ensures
            outcome matches Ok(text) && text@ == printed(config_json(self@)),
    {
        let value = self.to_value();
        Ok(print_value(&value))
    }
}

impl Default for Config {
    fn default() -> (config: Config)
        ensures
            config@ == (ConfigModel { web: None, rules: Seq::empty() }),
    {
        Config::new()
    }
}

impl core::str::FromStr for Config {
    type Err = Error;

    /// Reads a configuration from its JSON text.
    fn from_str(text: &str) -> (outcome: Result<Config, Error>)
        ensures
            config_outcome(outcome) == match parsed(text@) {
                Some(document) => decode_config(document),
                None => Err(ErrorKind::Json),
            },
    {
        Config::from_json(text)
    }
}

/// Among members with different names, each is found under its name.
proof fn lemma_member_at(members: Seq<(Seq<char>, Json)>, place: int)
    requires
        distinct_names(members),
        0 <= place < members.len(),
    ensures
        member_of(members, members[place].0) == Some(members[place].1),
    decreases members.len(),
{
    if place > 0 {
        let rest = members.drop_first();
        assert(members[0].0 != members[place].0);
        assert(rest[place - 1] == members[place]);
        assert forall|i: int, j: int| 0 <= i < j < rest.len() implies (#[trigger] rest[i]).0 != (
        #[trigger] rest[j]).0 by {
            assert(rest[i] == members[i + 1]);
            assert(rest[j] == members[j + 1]);
        }
        lemma_member_at(rest, place - 1);
    }
}

/// The documents of endpoints stand for these endpoints.
proof fn lemma_endpoints_round_trip(endpoints: Seq<Endpoint>)
    ensures
        decode_endpoints(endpoints_json(endpoints)) == Ok::<Seq<Endpoint>, ErrorKind>(endpoints),
    decreases endpoints.len(),
{
    let items = endpoints_json(endpoints);
    if endpoints.len() > 0 {
        lemma_endpoints_round_trip(endpoints.drop_last());
        assert(items.drop_last() =~= endpoints_json(endpoints.drop_last()));
        lemma_endpoint_round_trip(endpoints.last());
        assert(endpoints.drop_last().push(endpoints.last()) =~= endpoints);
    } else {
        assert(endpoints =~= Seq::<Endpoint>::empty());
    }
}

/// Writing a rule as a JSON document and reading the document back gives
/// the rule.
pub proof fn law_rule_round_trip(rule: RuleModel)
    ensures
        decode_rule(rule_json(rule)) == Ok::<RuleModel, ErrorKind>(rule),
{
    let members = rule_json(rule)->Object_0;
    lemma_rule_names();
    assert(distinct_names(members));
    lemma_member_at(members, 0);
    lemma_member_at(members, 1);
    lemma_member_at(members, 2);
    lemma_member_at(members, 3);
    reveal_strlit("udp");
    reveal_strlit("tcp");
    reveal_strlit("round-robin");
    reveal_strlit("broadcast");
    assert("tcp"@[0] != "udp"@[0]);
    assert("broadcast"@.len() != "round-robin"@.len());
    lemma_endpoint_round_trip(rule.source);
    lemma_endpoints_round_trip(rule.destinations);
}

/// The documents of rules stand for these rules.
proof fn lemma_rules_round_trip(rules: Seq<RuleModel>)
    ensures
        decode_rules(rules_json(rules)) == Ok::<Seq<RuleModel>, ErrorKind>(rules),
    decreases rules.len(),
{
    let items = rules_json(rules);
    if rules.len() > 0 {
        lemma_rules_round_trip(rules.drop_last());
        assert(items.drop_last() =~= rules_json(rules.drop_last()));
        law_rule_round_trip(rules.last());
        assert(rules.drop_last().push(rules.last()) =~= rules);
    } else {
        assert(rules =~= Seq::<RuleModel>::empty());
    }
}

/// Writing a configuration as a JSON document and reading the document back
/// gives the configuration.
pub proof fn law_config_round_trip(config: ConfigModel)
    ensures
        decode_config(config_json(config)) == Ok::<ConfigModel, ErrorKind>(config),
{
    let members = config_json(config)->Object_0;
    reveal_strlit("web");
    reveal_strlit("rules");
    reveal_strlit("port");
    reveal_strlit("address");
    reveal_strlit("*");
    assert("web"@.len() == 3);
    assert("rules"@.len() == 5);
    assert("port"@.len() == 4);
    assert("address"@.len() == 7);
    assert(distinct_names(members));
    lemma_rules_round_trip(config.rules);
    match config.web {
        Some(web) => {
            lemma_member_at(members, 0);
            lemma_member_at(members, 1);
            let inner = web_json(web)->Object_0;
            assert(distinct_names(inner));
            lemma_member_at(inner, 0);
            match web {
                Web::Port(_) => {},
                Web::Address(endpoint) => {
                    lemma_endpoint_round_trip(endpoint);
                    assert(inner[0].0 == "address"@);
                    assert(inner.drop_first().len() == 0);
                    assert(member_of(inner.drop_first(), "port"@) is None);
                    assert(member_of(inner, "port"@) is None);
                },
            }
        },
        None => {
            lemma_member_at(members, 0);
            assert(members[0].0 == "rules"@);
            assert(members.drop_first().len() == 0);
            assert(member_of(members.drop_first(), "web"@) is None);
            assert(member_of(members, "web"@) is None);
        },
    }
}

} // verus!
