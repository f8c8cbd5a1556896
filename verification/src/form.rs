//! Requests that come in as posted forms: the parameters of a form, and the
//! rule that they describe.
//!
//! A form names its method in the parameter `method`, since a form itself
//! can only be sent with `GET` or `POST`. A rule is described by the
//! parameters `mode`, `source`, `protocol` and `destinations`, the last one
//! a list of endpoints with commas between them.

use vstd::prelude::*;
use crate::endpoint::{endpoint_of, Endpoint};
use crate::rules::{Database, Protocol, Rule, RuleModel};
use crate::session::{session_for, Launch, Manager, ManagerModel};
use crate::strategy::Mode;
use crate::text::{chars_of, eq_str, find, index_of};
use crate::web::Method;

verus! {

/// Why a request was refused.
#[derive(Debug, PartialEq)]
pub enum Error {
    /// No active rule has the identifier asked for.
    ResourceNotFound,
    /// The parameter `method` names no method; its value is held.
    BadMethod(String),
    /// The form lacks the parameter of this name.
    MissingParameter(String),
    /// A parameter has a value that cannot be read; the value is held.
    BadParameter(String),
    /// The rule that the form describes cannot be served.
    UnsatisfiedInvariant,
}

/// An error without its text.
#[derive(Clone, Copy, Debug, PartialEq, Eq, Structural)]
pub enum ErrorKind {
    ResourceNotFound,
    BadMethod,
    MissingParameter,
    BadParameter,
    UnsatisfiedInvariant,
}

/// An error as a mathematical value: its kind and the text that it holds.
pub struct ErrorModel {
    pub kind: ErrorKind,
    pub text: Seq<char>,
}

impl View for Error {
    type V = ErrorModel;

    open spec fn view(&self) -> ErrorModel {
        match self {
            Error::ResourceNotFound => ErrorModel {
                kind: ErrorKind::ResourceNotFound,
                text: Seq::empty(),
            },
            Error::BadMethod(text) => ErrorModel { kind: ErrorKind::BadMethod, text: text@ },
            Error::MissingParameter(text) => ErrorModel {
                kind: ErrorKind::MissingParameter,
                text: text@,
            },
            Error::BadParameter(text) => ErrorModel { kind: ErrorKind::BadParameter, text: text@ },
            Error::UnsatisfiedInvariant => ErrorModel {
                kind: ErrorKind::UnsatisfiedInvariant,
                text: Seq::empty(),
            },
        }
    }
}

impl ErrorModel {
    /// The text of the error.
    pub open spec fn display(self) -> Seq<char> {
        match self.kind {
            ErrorKind::ResourceNotFound => "resource not found"@,
            ErrorKind::BadMethod => "bad method "@ + self.text,
            ErrorKind::MissingParameter => "missing parameter"@,
            ErrorKind::BadParameter => "bad parameter: "@ + self.text,
            ErrorKind::UnsatisfiedInvariant => "invariant error"@,
        }
    }
}

impl Error {
    /// The text of the error.
    pub fn to_string(&self) -> (text: String)
        ensures
            text@ == self@.display(),
    {
        match self {
            Error::ResourceNotFound => String::from_str("resource not found"),
            Error::BadMethod(method) => String::from_str("bad method ").concat(method.as_str()),
            Error::MissingParameter(_) => String::from_str("missing parameter"),
            Error::BadParameter(param) => String::from_str("bad parameter: ").concat(
                param.as_str(),
            ),
            Error::UnsatisfiedInvariant => String::from_str("invariant error"),
        }
    }

    /// What to send back for a request refused for this reason: the status,
    /// and the text of the error as the body.
    pub fn response(&self) -> (response: crate::web::Response)
        ensures
            response.status == if self@.kind == ErrorKind::ResourceNotFound {
                crate::web::NOT_FOUND
            } else {
                crate::web::BAD_REQUEST
            },
            response.body@ == self@.display(),
    {
        crate::web::Response { status: self.status(), body: self.to_string() }
    }

    /// The status that answers a request refused for this reason: 404 for
    /// a resource that is not there, 400 for everything else.
    pub fn status(&self) -> (status: u16)
        ensures
            status == if self@.kind == ErrorKind::ResourceNotFound {
                crate::web::NOT_FOUND
            } else {
                crate::web::BAD_REQUEST
            },
    {
        match self {
            Error::ResourceNotFound => crate::web::NOT_FOUND,
            _ => crate::web::BAD_REQUEST,
        }
    }
}

/// A value that can be read from a text.
pub trait FromText: Sized {
    /// The value that `text` writes, if it writes one.
    spec fn read(text: Seq<char>) -> Option<Self>;

    /// Reads a value from `text`.
    fn from_text(text: &str) -> (value: Option<Self>)
        ensures
            value == Self::read(text@),
    ;
}

impl FromText for Mode {
    open spec fn read(text: Seq<char>) -> Option<Mode> {
        Mode::named(text)
    }

    fn from_text(text: &str) -> (value: Option<Mode>) {
        match <Mode as core::str::FromStr>::from_str(text) {
            Ok(mode) => Some(mode),
            Err(_) => None,
        }
    }
}

impl FromText for Protocol {
    open spec fn read(text: Seq<char>) -> Option<Protocol> {
        Protocol::named(text)
    }

    fn from_text(text: &str) -> (value: Option<Protocol>) {
        match <Protocol as core::str::FromStr>::from_str(text) {
            Ok(protocol) => Some(protocol),
            Err(_) => None,
        }
    }
}

impl FromText for Endpoint {
    open spec fn read(text: Seq<char>) -> Option<Endpoint> {
        endpoint_of(text)
    }

    fn from_text(text: &str) -> (value: Option<Endpoint>) {
        Endpoint::parse(text)
    }
}

/// The parameters of a form as mathematical values.
pub open spec fn parameter_models(params: Seq<(String, String)>) -> Seq<(Seq<char>, Seq<char>)> {
    params.map_values(|pair: (String, String)| (pair.0@, pair.1@))
}

/// The value of the parameter `name`: where the form gives the parameter
/// more than once, the value given last.
pub open spec fn value_of(params: Seq<(Seq<char>, Seq<char>)>, name: Seq<char>) -> Option<
    Seq<char>,
>
    decreases params.len(),
{
    if params.len() == 0 {
        None
    } else if params.last().0 == name {
        Some(params.last().1)
    } else {
        value_of(params.drop_last(), name)
    }
}

/// The value of the parameter `name`.
pub fn lookup<'a>(params: &'a Vec<(String, String)>, name: &str) -> (value: Option<&'a String>)
    ensures
        match value {
            Some(value) => value_of(parameter_models(params@), name@) == Some(value@),
            None => value_of(parameter_models(params@), name@) is None,
        },
{
    let ghost models = parameter_models(params@);
    let mut i: usize = params.len();
    proof {
        assert(models.take(i as int) =~= models);
    }
    while i > 0
        invariant
            i <= params.len(),
            models == parameter_models(params@),
            value_of(models, name@) == value_of(models.take(i as int), name@),
        decreases i,
    {
        proof {
            assert(models.take(i as int).drop_last() =~= models.take(i - 1));
        }
        i -= 1;
        if eq_str(params[i].0.as_str(), name) {
            return Some(&params[i].1);
        }
    }
    None
}

/// What reading the parameter `name` as a `T` comes to: the value read, or
/// the name of the parameter that the form lacks, or the value that
/// could not be read.
pub open spec fn parameter<T: FromText>(
    params: Seq<(Seq<char>, Seq<char>)>,
    name: Seq<char>,
) -> Result<T, ErrorModel> {
    match value_of(params, name) {
        None => Err(ErrorModel { kind: ErrorKind::MissingParameter, text: name }),
        Some(text) => match T::read(text) {
            Some(value) => Ok(value),
            None => Err(ErrorModel { kind: ErrorKind::BadParameter, text }),
        },
    }
}

/// Reads the parameter `param` of a form as a `T`.
pub fn get_parameter<T: FromText>(params: &Vec<(String, String)>, param: &str) -> (outcome: Result<
    T,
    Error,
>)
    ensures
        match outcome {
            Ok(value) => parameter::<T>(parameter_models(params@), param@) == Ok::<T, ErrorModel>(
                value,
            ),
            Err(error) => parameter::<T>(parameter_models(params@), param@) == Err::<
                T,
                ErrorModel,
            >(error@),
        },
{
    match lookup(params, param) {
        Some(text) => match T::from_text(text.as_str()) {
            Some(value) => Ok(value),
            None => Err(Error::BadParameter(text.clone())),
        },
        None => Err(Error::MissingParameter(param.to_owned())),
    }
}

/// The method that a form asks for: the one that its parameter `method`
/// names, and `GET` where it has none.
pub open spec fn method_of(params: Seq<(Seq<char>, Seq<char>)>) -> Result<Method, ErrorModel> {
    match value_of(params, "method"@) {
        None => Ok(Method::Get),
        Some(text) => if Method::named(text) == Method::Other {
            Err(ErrorModel { kind: ErrorKind::BadMethod, text })
        } else {
            Ok(Method::named(text))
        },
    }
}

/// The method that a form asks for.
pub fn get_method(params: &Vec<(String, String)>) -> (outcome: Result<Method, Error>)
    ensures
        match outcome {
            Ok(method) => method_of(parameter_models(params@)) == Ok::<Method, ErrorModel>(method),
            Err(error) => method_of(parameter_models(params@)) == Err::<Method, ErrorModel>(
                error@,
            ),
        },
{
    match lookup(params, "method") {
        None => Ok(Method::Get),
        Some(text) => match Method::from_name(text.as_str()) {
            Method::Other => Err(Error::BadMethod(text.clone())),
            method => Ok(method),
        },
    }
}

/// The endpoints that a list with commas between them writes, or the first
/// piece that writes none. A text without a comma is one piece, also
/// where it is empty.
pub open spec fn endpoints_of(text: Seq<char>) -> Result<Seq<Endpoint>, ErrorModel>
    decreases text.len(),
{
    let comma = index_of(text, ',');
    if comma < 0 || comma > text.len() {
        Ok(Seq::empty())
    } else {
        match endpoint_of(text.take(comma)) {
            None => Err(ErrorModel { kind: ErrorKind::BadParameter, text: text.take(comma) }),
            Some(endpoint) => if comma == text.len() {
                Ok(seq![endpoint])
            } else {
                match endpoints_of(text.skip(comma + 1)) {
                    Err(error) => Err(error),
                    Ok(rest) => Ok(seq![endpoint] + rest),
                }
            },
        }
    }
}

/// Reads a list of endpoints with commas between them.
pub fn parse_endpoints(text: &str) -> (outcome: Result<Vec<Endpoint>, Error>)
    ensures
        match outcome {
            Ok(endpoints) => endpoints_of(text@) == Ok::<Seq<Endpoint>, ErrorModel>(endpoints@),
            Err(error) => endpoints_of(text@) == Err::<Seq<Endpoint>, ErrorModel>(error@),
        },
{
    let chars = chars_of(text);
    let mut endpoints: Vec<Endpoint> = Vec::new();
    let mut from: usize = 0;
    proof {
        assert(chars@.skip(0) =~= chars@);
    }
    loop
        invariant
            from <= chars.len(),
            chars@ == text@,
            match endpoints_of(chars@.skip(from as int)) {
                Ok(rest) => endpoints_of(text@) == Ok::<Seq<Endpoint>, ErrorModel>(
                    endpoints@ + rest,
                ),
                Err(error) => endpoints_of(text@) == Err::<Seq<Endpoint>, ErrorModel>(error),
            },
        decreases chars.len() - from,
    {
        let ghost rest = chars@.skip(from as int);
        let comma = find(&chars, from, chars.len(), ',');
        proof {
            assert(rest.take(comma - from) =~= chars@.subrange(from as int, comma as int));
        }
        match Endpoint::parse_range(&chars, from, comma) {
            None => {
                let piece = text.substring_char(from, comma);
                return Err(Error::BadParameter(piece.to_owned()));
            },
            Some(endpoint) => {
                if comma == chars.len() {
                    let ghost before = endpoints@;
                    endpoints.push(endpoint);
                    proof {
                        assert(endpoints@ =~= before + seq![endpoint]);
                    }
                    return Ok(endpoints);
                }
                proof {
                    assert(rest.skip(comma - from + 1) =~= chars@.skip(comma + 1));
                    let ghost before = endpoints@;
                    match endpoints_of(chars@.skip(comma + 1)) {
                        Ok(more) => {
                            assert(before.push(endpoint) + more =~= before + (seq![endpoint]
                                + more));
                        },
                        Err(_) => {},
                    }
                }
                endpoints.push(endpoint);
                from = comma + 1;
            },
        }
    }
}

/// The rule that the parameters of a form describe; the parameters are read
/// in the order `mode`, `source`, `protocol`, `destinations`, and the
/// first that is missing or cannot be read decides the error.
pub open spec fn rule_of(params: Seq<(Seq<char>, Seq<char>)>) -> Result<RuleModel, ErrorModel> {
    match parameter::<Mode>(params, "mode"@) {
        Err(error) => Err(error),
        Ok(mode) => match parameter::<Endpoint>(params, "source"@) {
            Err(error) => Err(error),
            Ok(source) => match parameter::<Protocol>(params, "protocol"@) {
                Err(error) => Err(error),
                Ok(protocol) => match value_of(params, "destinations"@) {
                    None => Err(
                        ErrorModel { kind: ErrorKind::MissingParameter, text: "destinations"@ },
                    ),
                    Some(text) => match endpoints_of(text) {
                        Err(error) => Err(error),
                        Ok(destinations) => Ok(
                            RuleModel { protocol, mode, source, destinations },
                        ),
                    },
                },
            },
        },
    }
}

/// Reads the rule that the parameters of a form describe. Whether the rule
/// is valid is not asked here.
pub fn rule_from_parameters(params: &Vec<(String, String)>) -> (outcome: Result<Rule, Error>)
    ensures
        match outcome {
            Ok(rule) => rule_of(parameter_models(params@)) == Ok::<RuleModel, ErrorModel>(rule@),
            Err(error) => rule_of(parameter_models(params@)) == Err::<RuleModel, ErrorModel>(
                error@,
            ),
        },
{
    let mode: Mode = match get_parameter::<Mode>(params, "mode") {
        Ok(mode) => mode,
        Err(error) => {
            return Err(error);
        },
    };
    let source: Endpoint = match get_parameter::<Endpoint>(params, "source") {
        Ok(source) => source,
        Err(error) => {
            return Err(error);
        },
    };
    let protocol: Protocol = match get_parameter::<Protocol>(params, "protocol") {
        Ok(protocol) => protocol,
        Err(error) => {
            return Err(error);
        },
    };
    let destinations = match lookup(params, "destinations") {
        Some(text) => match parse_endpoints(text.as_str()) {
            Ok(destinations) => destinations,
            Err(error) => {
                return Err(error);
            },
        },
        None => {
            return Err(Error::MissingParameter("destinations".to_owned()));
        },
    };
    Ok(Rule { protocol, mode, source, destinations })
}

/// The pairs of names and values that `url::form_urlencoded::parse` reads
/// from the bytes of a posted form.
pub uninterp spec fn form_pairs(body: Seq<u8>) -> Seq<(Seq<char>, Seq<char>)>;

/// `url::form_urlencoded::parse`: the parameters of a posted form, names
/// and values decoded, in the order of the form. Trusted: they are the
/// pairs that `form_pairs` names for the bytes.
#[verifier::external_body]
pub(crate) fn parse_form(body: &[u8]) -> (params: Vec<(String, String)>)
    ensures
        parameter_models(params@) == form_pairs(body@),
{
    url::form_urlencoded::parse(body).into_owned().collect()
}

/// Reads the rule that a posted form describes.
pub fn rule_from_form(body: &[u8]) -> (outcome: Result<Rule, Error>)
    ensures
        match outcome {
            Ok(rule) => rule_of(form_pairs(body@)) == Ok::<RuleModel, ErrorModel>(rule@),
            Err(error) => rule_of(form_pairs(body@)) == Err::<RuleModel, ErrorModel>(error@),
        },
{
    let params = parse_form(body);
    rule_from_parameters(&params)
}

/// The active rule at `rule_no`, or that there is none.
pub fn get_rule(database: &Database, rule_no: usize) -> (outcome: Result<&Rule, Error>)
    ensures
        match outcome {
            Ok(rule) => database@.get(rule_no as int) == Some(rule@),
            Err(error) => database@.get(rule_no as int) is None && error@.kind
                == ErrorKind::ResourceNotFound,
        },
{
    match database.get_rule(rule_no) {
        Some(rule) => Ok(rule),
        None => Err(Error::ResourceNotFound),
    }
}

/// What adding the rule that a form describes makes of the manager and
/// answers: the error of the form, with nothing changed, where it describes
/// no rule; `UnsatisfiedInvariant`, with nothing changed, where the store
/// refuses the rule; and else the new identifier and the session to spawn.
pub open spec fn add_rule_answer(
    before: ManagerModel,
    params: Seq<(Seq<char>, Seq<char>)>,
    after: ManagerModel,
    outcome: Result<Launch, Error>,
) -> bool {
    match rule_of(params) {
        Err(error) => after == before && outcome is Err && outcome->Err_0@ == error,
        Ok(rule) => after == before.add_rule(rule) && match before.store.create_outcome(rule) {
            Ok(id) => outcome matches Ok(launch) && launch.id == id && session_for(
                rule,
                launch.session,
            ),
            Err(_) => outcome is Err && outcome->Err_0@.kind == ErrorKind::UnsatisfiedInvariant,
        },
    }
}

/// Adds the rule that the parameters of a form describe.
pub fn process_add_rule_request(manager: &mut Manager, params: &Vec<(String, String)>) -> (outcome:
    Result<Launch, Error>)
    requires
        old(manager).wf(),
    ensures
        final(manager).wf(),
        add_rule_answer(old(manager)@, parameter_models(params@), final(manager)@, outcome),
{
    let rule = match rule_from_parameters(params) {
        Ok(rule) => rule,
        Err(error) => {
            return Err(error);
        },
    };
    match manager.add_rule(rule) {
        Ok(launch) => Ok(launch),
        Err(_) => Err(Error::UnsatisfiedInvariant),
    }
}

} // verus!
