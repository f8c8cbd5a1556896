//! The control plane: the HTTP resources over the rules.
//!
//! ```text
//! GET    /rules       200, the active rules by ascending identifier
//! POST   /rules       201, {"rule_id": N}        body: a rule
//! PUT    /rules/{id}  200, or 404                body: a rule
//! DELETE /rules/{id}  204, or 404
//! ```
//!
//! A body of more than 16 KiB is answered with 413, a body that is no rule,
//! or a rule that the store refuses, with 400, a path that names no resource
//! with 404, and a method that the resource does not have with 405. Nothing
//! here touches a socket: a request comes in as plain values, and the answer
//! says what to send back and which session to spawn or to cancel.

use vstd::prelude::*;
use vstd::utf8::{decode_utf8, valid_utf8};
use crate::config::{decode_rule, rule_json, rules_json};
use crate::json::{
    array_value, member_models, object_value, parsed, print_value, printed, unsigned_value,
    value_model, value_models, Json, JsonNumber,
};
use crate::rules::{Database, Rule, RuleModel, StoreModel};
use crate::session::{session_for, Launch, Manager, ManagerModel};
use crate::text::{chars_of, eq_range, number_of, parse_number};

verus! {

/// The greatest size of a request body, in bytes.
pub const BODY_LIMIT: usize = 16384;

pub const OK: u16 = 200;

pub const CREATED: u16 = 201;

pub const NO_CONTENT: u16 = 204;

pub const BAD_REQUEST: u16 = 400;

pub const NOT_FOUND: u16 = 404;

pub const METHOD_NOT_ALLOWED: u16 = 405;

pub const PAYLOAD_TOO_LARGE: u16 = 413;

/// What the control plane is told while it serves.
#[derive(Clone, Copy, Debug, PartialEq, Eq, Hash, Structural)]
pub enum Signal {
    /// Take no more requests, finish those at hand, and stop.
    Shutdown,
}

/// The method of a request.
#[derive(Clone, Copy, Debug, PartialEq, Eq, Hash, Structural)]
pub enum Method {
    Get,
    Post,
    Put,
    Delete,
    Other,
}

/// What a path names.
#[derive(Clone, Copy, Debug, PartialEq, Eq, Hash, Structural)]
pub enum Resource {
    /// `/rules`: all rules.
    Rules,
    /// `/rules/{id}`: the rule with this identifier.
    Rule(usize),
}

/// What to send back: a status, and a body that is JSON text or empty.
#[derive(Debug, PartialEq)]
pub struct Response {
    pub status: u16,
    pub body: String,
}

/// What the driver is to do for a request, besides answering it.
pub enum Effect {
    Nothing,
    /// Spawn this session.
    Spawn(Launch),
    /// Cancel the session of the rule with this identifier.
    Cancel(usize),
}

/// The answer to a request.
pub struct Reply {
    pub response: Response,
    pub effect: Effect,
}

impl Method {
    /// The method that a name stands for; names are in upper case.
    pub open spec fn named(name: Seq<char>) -> Method {
        if name == "GET"@ {
            Method::Get
        } else if name == "POST"@ {
            Method::Post
        } else if name == "PUT"@ {
            Method::Put
        } else if name == "DELETE"@ {
            Method::Delete
        } else {
            Method::Other
        }
    }

    /// The method that a name stands for; names are in upper case.
    pub fn from_name(name: &str) -> (method: Method)
        ensures
            method == Method::named(name@),
    {
        let chars = chars_of(name);
        assert(chars@.subrange(0, chars@.len() as int) =~= chars@);
        if eq_range(&chars, 0, chars.len(), "GET") {
            Method::Get
        } else if eq_range(&chars, 0, chars.len(), "POST") {
            Method::Post
        } else if eq_range(&chars, 0, chars.len(), "PUT") {
            Method::Put
        } else if eq_range(&chars, 0, chars.len(), "DELETE") {
            Method::Delete
        } else {
            Method::Other
        }
    }
}

/// The resource that a path names: `/rules`, or `/rules/` and an identifier
/// in digits.
pub open spec fn resource_of(path: Seq<char>) -> Option<Resource> {
    if path == "/rules"@ {
        Some(Resource::Rules)
    } else if path.len() >= 7 && path.take(7) == "/rules/"@ {
        match number_of(path.skip(7), usize::MAX as nat) {
            Some(id) => Some(Resource::Rule(id as usize)),
            None => None,
        }
    } else {
        None
    }
}

/// The resource that a path names.
pub fn resource(path: &str) -> (found: Option<Resource>)
    ensures
        found == resource_of(path@),
{
    let chars = chars_of(path);
    proof {
        assert(chars@.subrange(0, chars@.len() as int) =~= chars@);
    }
    if eq_range(&chars, 0, chars.len(), "/rules") {
        return Some(Resource::Rules);
    }
    if chars.len() < 7 {
        return None;
    }
    if !eq_range(&chars, 0, 7, "/rules/") {
        return None;
    }
    match parse_number(&chars, 7, chars.len(), usize::MAX as u64) {
        Some(id) => Some(Resource::Rule(id as usize)),
        None => None,
    }
}

/// `core::str::from_utf8`: the text that bytes encode. Trusted: the answer
/// is `Some` exactly where the bytes are valid UTF-8, and holds the
/// characters that they encode.
#[verifier::external_body]
pub(crate) fn text_of_bytes(bytes: &[u8]) -> (text: Option<&str>)
    ensures
        match text {
            Some(text) => valid_utf8(bytes@) && text@ == decode_utf8(bytes@),
            None => !valid_utf8(bytes@),
        },
{
    core::str::from_utf8(bytes).ok()
}

/// The rule that a request body holds: valid UTF-8 that is the JSON text of
/// a rule.
pub open spec fn body_rule(body: Seq<u8>) -> Option<RuleModel> {
    if valid_utf8(body) {
        match parsed(decode_utf8(body)) {
            Some(json) => match decode_rule(json) {
                Ok(rule) => Some(rule),
                Err(_) => None,
            },
            None => None,
        }
    } else {
        None
    }
}

/// The rules of a listing, without their identifiers.
pub open spec fn listed(store: StoreModel) -> Seq<RuleModel> {
    store.list().map_values(|entry: (int, RuleModel)| entry.1)
}

/// The document that answers a create: `{"rule_id": id}`.
pub open spec fn created_json(id: int) -> Json {
    Json::Object(seq![("rule_id"@, Json::Number(JsonNumber::Unsigned(id as u64)))])
}

impl Response {
    /// Whether the response has this status and no body.
    pub open spec fn is_plain(self, status: u16) -> bool {
        self.status == status && self.body@ == Seq::<char>::empty()
    }

    /// Whether the response has this status and the text of this document
    /// as its body.
    pub open spec fn is_json(self, status: u16, json: Json) -> bool {
        self.status == status && self.body@ == printed(json)
    }

    /// A response with this status and no body.
    pub fn plain(status: u16) -> (response: Response)
        ensures
            response.is_plain(status),
    {
        Response { status, body: String::new() }
    }

    /// A response with this status and the text of this document as its
    /// body.
    fn json(status: u16, value: &serde_json::Value) -> (response: Response)
        ensures
            response.is_json(status, value_model(*value)),
    {
        Response { status, body: print_value(value) }
    }
}

/// Reads the rule that a request body holds.
pub fn rule_from_body(body: &[u8]) -> (rule: Option<Rule>)
    ensures
        match rule {
            Some(rule) => body_rule(body@) == Some(rule@),
            None => body_rule(body@) is None,
        },
{
    match text_of_bytes(body) {
        None => None,
        Some(text) => match Rule::from_json(text) {
            Ok(rule) => Some(rule),
            Err(_) => None,
        },
    }
}

/// What `GET /rules` answers for a store: 200 and the active rules, by
/// ascending identifier.
pub open spec fn list_answer(store: StoreModel, response: Response) -> bool {
    response.is_json(OK, Json::Array(rules_json(listed(store))))
}

/// What `POST /rules` with this body makes of the manager and answers: 413
/// for a body over the limit, 400 for a body that holds no rule or a rule
/// that the store refuses, and else 201 with the new identifier and the
/// session to spawn.
pub open spec fn create_answer(
    before: ManagerModel,
    body: Seq<u8>,
    after: ManagerModel,
    reply: Reply,
) -> bool {
    if body.len() > BODY_LIMIT {
        after == before && reply.response.is_plain(PAYLOAD_TOO_LARGE) && reply.effect is Nothing
    } else {
        match body_rule(body) {
            None => after == before && reply.response.is_plain(BAD_REQUEST)
                && reply.effect is Nothing,
            Some(rule) => after == before.add_rule(rule) && match before.store.create_outcome(
                rule,
            ) {
                Ok(id) => reply.response.is_json(CREATED, created_json(id)) && (
                reply.effect matches Effect::Spawn(launch) && launch.id == id && session_for(
                    rule,
                    launch.session,
                )),
                Err(_) => reply.response.is_plain(BAD_REQUEST) && reply.effect is Nothing,
            },
        }
    }
}

/// What `PUT /rules/{id}` with this body makes of the manager and answers:
/// 413 for a body over the limit, 400 for a body that holds no rule, 404
/// where no active rule has the identifier, 400 for a rule that the store
/// refuses, and else 200. Only the store changes; no session does.
pub open spec fn update_answer(
    before: ManagerModel,
    id: int,
    body: Seq<u8>,
    after: ManagerModel,
    reply: Reply,
) -> bool {
    &&& reply.effect is Nothing
    &&& if body.len() > BODY_LIMIT {
        after == before && reply.response.is_plain(PAYLOAD_TOO_LARGE)
    } else {
        match body_rule(body) {
            None => after == before && reply.response.is_plain(BAD_REQUEST),
            Some(rule) => after == (ManagerModel {
                store: before.store.update(id, rule),
                ..before
            }) && match before.store.update_outcome(id, rule) {
                Ok(_) => reply.response.is_plain(OK),
                Err(crate::rules::Error::NotFound) => reply.response.is_plain(NOT_FOUND),
                Err(_) => reply.response.is_plain(BAD_REQUEST),
            },
        }
    }
}

/// What `DELETE /rules/{id}` makes of the manager and answers: 204 and the
/// session to cancel, or 404 where no active rule has the identifier.
pub open spec fn delete_answer(
    before: ManagerModel,
    id: int,
    after: ManagerModel,
    reply: Reply,
) -> bool {
    &&& after == before.remove_rule(id)
    &&& if before.store.is_active(id) {
        reply.response.is_plain(NO_CONTENT) && reply.effect == Effect::Cancel(id as usize)
    } else {
        reply.response.is_plain(NOT_FOUND) && reply.effect is Nothing
    }
}

/// The documents for the rules of a listing.
fn listing_values(listing: &Vec<(usize, Rule)>) -> (values: Vec<serde_json::Value>)
    ensures
        values.len() == listing.len(),
        forall|k: int|
            0 <= k < values.len() ==> value_model(#[trigger] values@[k]) == rule_json(
                listing@[k].1@,
            ),
{
    let mut values: Vec<serde_json::Value> = Vec::new();
    let mut i: usize = 0;
    while i < listing.len()
        invariant
            i <= listing.len(),
            values.len() == i,
            forall|k: int|
                0 <= k < i ==> value_model(#[trigger] values@[k]) == rule_json(listing@[k].1@),
        decreases listing.len() - i,
    {
        values.push(listing[i].1.to_value());
        i += 1;
    }
    values
}

/// `GET /rules`: the active rules, by ascending identifier.
pub fn list_rules(database: &Database) -> (response: Response)
    ensures
        list_answer(database@, response),
{
    let listing = database.list_rules();
    let values = listing_values(&listing);
    proof {
        assert(value_models(values@) =~= rules_json(listed(database@)));
    }
    let document = array_value(values);
    Response::json(OK, &document)
}

/// `POST /rules`: creates the rule that the body holds.
pub fn create_rule(manager: &mut Manager, body: &[u8]) -> (reply: Reply)
    requires
        old(manager).wf(),
    ensures
        final(manager).wf(),
        create_answer(old(manager)@, body@, final(manager)@, reply),
{
    if body.len() > BODY_LIMIT {
        return Reply { response: Response::plain(PAYLOAD_TOO_LARGE), effect: Effect::Nothing };
    }
    let rule = match rule_from_body(body) {
        Some(rule) => rule,
        None => {
            return Reply { response: Response::plain(BAD_REQUEST), effect: Effect::Nothing };
        },
    };
    match manager.add_rule(rule) {
        Err(_) => Reply { response: Response::plain(BAD_REQUEST), effect: Effect::Nothing },
        Ok(launch) => {
            let mut members: Vec<(String, serde_json::Value)> = Vec::new();
            members.push((String::from_str("rule_id"), unsigned_value(launch.id as u64)));
            proof {
                assert(member_models(members@) =~= created_json(launch.id as int)->Object_0);
            }
            let document = object_value(members);
            Reply { response: Response::json(CREATED, &document), effect: Effect::Spawn(launch) }
        },
    }
}

/// `PUT /rules/{id}`: replaces the rule at `id` by the rule that the body
/// holds.
pub fn update_rule(manager: &mut Manager, id: usize, body: &[u8]) -> (reply: Reply)
    requires
        old(manager).wf(),
    ensures
        final(manager).wf(),
        update_answer(old(manager)@, id as int, body@, final(manager)@, reply),
{
    if body.len() > BODY_LIMIT {
        return Reply { response: Response::plain(PAYLOAD_TOO_LARGE), effect: Effect::Nothing };
    }
    let rule = match rule_from_body(body) {
        Some(rule) => rule,
        None => {
            return Reply { response: Response::plain(BAD_REQUEST), effect: Effect::Nothing };
        },
    };
    let status = match manager.update_rule(id, rule) {
        Ok(_) => OK,
        Err(crate::rules::Error::NotFound) => NOT_FOUND,
        Err(_) => BAD_REQUEST,
    };
    Reply { response: Response::plain(status), effect: Effect::Nothing }
}

/// `DELETE /rules/{id}`: deletes the rule at `id`.
pub fn delete_rule(manager: &mut Manager, id: usize) -> (reply: Reply)
    requires
        old(manager).wf(),
    ensures
        final(manager).wf(),
        delete_answer(old(manager)@, id as int, final(manager)@, reply),
{
    match manager.remove_rule(id) {
        Ok(_) => Reply { response: Response::plain(NO_CONTENT), effect: Effect::Cancel(id) },
        Err(_) => Reply { response: Response::plain(NOT_FOUND), effect: Effect::Nothing },
    }
}

/// What a request makes of the manager and answers: 404 for a path that
/// names no resource, 405 for a method that the resource does not have, and
/// else what the resource answers.
pub open spec fn answer(
    before: ManagerModel,
    method: Method,
    path: Seq<char>,
    body: Seq<u8>,
    after: ManagerModel,
    reply: Reply,
) -> bool {
    match (resource_of(path), method) {
        (None, _) => after == before && reply.response.is_plain(NOT_FOUND)
            && reply.effect is Nothing,
        (Some(Resource::Rules), Method::Get) => after == before && list_answer(
            before.store,
            reply.response,
        ) && reply.effect is Nothing,
        (Some(Resource::Rules), Method::Post) => create_answer(before, body, after, reply),
        (Some(Resource::Rule(id)), Method::Put) => update_answer(
            before,
            id as int,
            body,
            after,
            reply,
        ),
        (Some(Resource::Rule(id)), Method::Delete) => delete_answer(
            before,
            id as int,
            after,
            reply,
        ),
        _ => after == before && reply.response.is_plain(METHOD_NOT_ALLOWED)
            && reply.effect is Nothing,
    }
}

/// Serves one request of the control plane.
pub fn service(manager: &mut Manager, method: Method, path: &str, body: &[u8]) -> (reply: Reply)
    requires
        old(manager).wf(),
    ensures
        final(manager).wf(),
        answer(old(manager)@, method, path@, body@, final(manager)@, reply),
{
    match (resource(path), method) {
        (None, _) => Reply { response: Response::plain(NOT_FOUND), effect: Effect::Nothing },
        (Some(Resource::Rules), Method::Get) => Reply {
            response: list_rules(manager.database()),
            effect: Effect::Nothing,
        },
        (Some(Resource::Rules), Method::Post) => create_rule(manager, body),
        (Some(Resource::Rule(id)), Method::Put) => update_rule(manager, id, body),
        (Some(Resource::Rule(id)), Method::Delete) => delete_rule(manager, id),
        _ => Reply { response: Response::plain(METHOD_NOT_ALLOWED), effect: Effect::Nothing },
    }
}

/// A rule that was created is there to be read: where `POST /rules` with
/// a body answers 201 with an identifier, the store holds the rule of the
/// body under that identifier, and `GET /rules` lists it, as its last
/// entry, until the rule is updated or deleted.
pub proof fn law_created_rule_is_listed(
    before: ManagerModel,
    body: Seq<u8>,
    after: ManagerModel,
    reply: Reply,
)
    requires
        create_answer(before, body, after, reply),
        reply.response.status == CREATED,
    ensures
        body_rule(body) is Some,
        reply.response.body@ == printed(created_json(after.store.next_id() - 1)),
        after.store.get(after.store.next_id() - 1) == body_rule(body),
        listed(after.store).len() >= 1,
        listed(after.store).last() == body_rule(body)->0,
        listed(after.store).drop_last() == listed(before.store),
{
    let rule = body_rule(body)->0;
    assert(after.store.slots == before.store.slots.push(Some(rule)));
    assert(after.store.slots.drop_last() =~= before.store.slots);
    assert(listed(after.store).drop_last() =~= listed(before.store));
}

} // verus!
