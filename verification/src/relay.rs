//! Relaying requests to the checker: what is sent for each endpoint of the
//! service, and what the client gets back for each outcome.

use vstd::prelude::*;
use crate::auth::AuthDataType;
use crate::text::{i64_to_string, signed_decimal};

verus! {

/// The method of a request.
#[derive(Clone, Copy, Debug, PartialEq, Eq, Structural)]
pub enum Method {
    Get,
    Post,
    Put,
    Delete,
}

/// The endpoints of the service that are answered by the checker.
#[derive(Clone, Copy, Debug, PartialEq, Eq, Structural)]
pub enum Endpoint {
    /// Ask whether a task may be executed.
    ExecTask,
    /// Ask whether a dataset may be accessed.
    AccessData,
    /// Ask whether a workflow as a whole is permitted.
    ValidateWorkflow,
    /// List the versions of the policy.
    Policies,
    /// Get one version of the policy.
    Policy { version: i64 },
    /// Get the active version of the policy.
    ActivePolicy,
    /// Make a version of the policy the active one.
    ActivatePolicy,
    /// Make no version of the policy the active one.
    DeactivatePolicy,
    /// Add a version of the policy.
    AddPolicy,
    /// Describe the reasoner that the checker runs.
    ReasonerConnectorInfo,
}

/// The groups of endpoints that answer failures in the same way.
#[derive(Clone, Copy, Debug, PartialEq, Eq, Structural)]
pub enum Family {
    Deliberation,
    Policy,
    Connector,
}

/// The group an endpoint belongs to.
pub open spec fn family_of(endpoint: Endpoint) -> Family {
    match endpoint {
        Endpoint::ExecTask => Family::Deliberation,
        Endpoint::AccessData => Family::Deliberation,
        Endpoint::ValidateWorkflow => Family::Deliberation,
        Endpoint::ReasonerConnectorInfo => Family::Connector,
        _ => Family::Policy,
    }
}

/// The service whose token an endpoint needs.
pub open spec fn service_of(endpoint: Endpoint) -> AuthDataType {
    match family_of(endpoint) {
        Family::Deliberation => AuthDataType::Deliberation,
        _ => AuthDataType::Policy,
    }
}

/// The method of the request that an endpoint sends to the checker.
pub open spec fn method_of(endpoint: Endpoint) -> Method {
    match endpoint {
        Endpoint::ExecTask => Method::Post,
        Endpoint::AccessData => Method::Post,
        Endpoint::ValidateWorkflow => Method::Post,
        Endpoint::Policies => Method::Get,
        Endpoint::Policy { .. } => Method::Get,
        Endpoint::ActivePolicy => Method::Get,
        Endpoint::ActivatePolicy => Method::Put,
        Endpoint::DeactivatePolicy => Method::Delete,
        Endpoint::AddPolicy => Method::Post,
        Endpoint::ReasonerConnectorInfo => Method::Get,
    }
}

/// The path at the checker that an endpoint asks.
pub open spec fn path_of(endpoint: Endpoint) -> Seq<char> {
    match endpoint {
        Endpoint::ExecTask => "/v1/deliberation/execute-task"@,
        Endpoint::AccessData => "/v1/deliberation/access-data"@,
        Endpoint::ValidateWorkflow => "/v1/deliberation/execute-workflow"@,
        Endpoint::Policies => "/v1/management/policies"@,
        Endpoint::Policy { version } => "/v1/management/policies/"@ + signed_decimal(
            version as int,
        ),
        Endpoint::ActivePolicy => "/v1/management/policies/active"@,
        Endpoint::ActivatePolicy => "/v1/management/policies/active"@,
        Endpoint::DeactivatePolicy => "/v1/management/policies/active"@,
        Endpoint::AddPolicy => "/v1/management/policies"@,
        Endpoint::ReasonerConnectorInfo => "/v1/management/reasoner-connector-context"@,
    }
}

/// Whether the request of an endpoint carries the body of the client's
/// request, marked as JSON.
pub open spec fn carries_body(endpoint: Endpoint) -> bool {
    match endpoint {
        Endpoint::ExecTask => true,
        Endpoint::AccessData => true,
        Endpoint::ValidateWorkflow => true,
        Endpoint::ActivatePolicy => true,
        Endpoint::AddPolicy => true,
        _ => false,
    }
}

/// Whether an endpoint hands a refusal of the checker on with the checker's
/// own words. The others answer it with the description of the status.
pub open spec fn relays_refusal_body(endpoint: Endpoint) -> bool {
    match endpoint {
        Endpoint::Policies => false,
        Endpoint::Policy { .. } => false,
        Endpoint::ActivePolicy => false,
        Endpoint::ReasonerConnectorInfo => false,
        _ => true,
    }
}

/// Whether a status of the checker counts as a refusal at an endpoint: any
/// status above 399 where the body is handed on, a client or server error
/// elsewhere.
pub open spec fn refused(endpoint: Endpoint, status: u16) -> bool {
    if relays_refusal_body(endpoint) {
        status > 399
    } else {
        400 <= status < 600
    }
}

impl Endpoint {
    /// The group this endpoint belongs to.
    pub fn family(&self) -> (res: Family)
        ensures
            res == family_of(*self),
    {
        match self {
            Endpoint::ExecTask => Family::Deliberation,
            Endpoint::AccessData => Family::Deliberation,
            Endpoint::ValidateWorkflow => Family::Deliberation,
            Endpoint::ReasonerConnectorInfo => Family::Connector,
            _ => Family::Policy,
        }
    }

    /// The service whose token this endpoint needs.
    pub fn service(&self) -> (res: AuthDataType)
        ensures
            res == service_of(*self),
    {
        match self.family() {
            Family::Deliberation => AuthDataType::Deliberation,
            _ => AuthDataType::Policy,
        }
    }

    /// The method of the request to the checker.
    pub fn method(&self) -> (res: Method)
        ensures
            res == method_of(*self),
    {
        match self {
            Endpoint::ExecTask => Method::Post,
            Endpoint::AccessData => Method::Post,
            Endpoint::ValidateWorkflow => Method::Post,
            Endpoint::Policies => Method::Get,
            Endpoint::Policy { .. } => Method::Get,
            Endpoint::ActivePolicy => Method::Get,
            Endpoint::ActivatePolicy => Method::Put,
            Endpoint::DeactivatePolicy => Method::Delete,
            Endpoint::AddPolicy => Method::Post,
            Endpoint::ReasonerConnectorInfo => Method::Get,
        }
    }

    /// The path at the checker.
    pub fn path(&self) -> (res: String)
        ensures
            res@ == path_of(*self),
    {
        match self {
            Endpoint::ExecTask => "/v1/deliberation/execute-task".to_owned(),
            Endpoint::AccessData => "/v1/deliberation/access-data".to_owned(),
            Endpoint::ValidateWorkflow => "/v1/deliberation/execute-workflow".to_owned(),
            Endpoint::Policies => "/v1/management/policies".to_owned(),
            Endpoint::Policy { version } => {
                let mut res = "/v1/management/policies/".to_owned();
                let number = i64_to_string(*version);
                res.append(number.as_str());
                res
            },
            Endpoint::ActivePolicy => "/v1/management/policies/active".to_owned(),
            Endpoint::ActivatePolicy => "/v1/management/policies/active".to_owned(),
            Endpoint::DeactivatePolicy => "/v1/management/policies/active".to_owned(),
            Endpoint::AddPolicy => "/v1/management/policies".to_owned(),
            Endpoint::ReasonerConnectorInfo => {
                "/v1/management/reasoner-connector-context".to_owned()
            },
        }
    }

    /// Whether the request carries the body of the client's request.
    pub fn carries_body(&self) -> (res: bool)
        ensures
            res == carries_body(*self),
    {
        match self {
            Endpoint::ExecTask => true,
            Endpoint::AccessData => true,
            Endpoint::ValidateWorkflow => true,
            Endpoint::ActivatePolicy => true,
            Endpoint::AddPolicy => true,
            _ => false,
        }
    }

    /// Whether a refusal of the checker is handed on with its own words.
    pub fn relays_refusal_body(&self) -> (res: bool)
        ensures
            res == relays_refusal_body(*self),
    {
        match self {
            Endpoint::Policies => false,
            Endpoint::Policy { .. } => false,
            Endpoint::ActivePolicy => false,
            Endpoint::ReasonerConnectorInfo => false,
            _ => true,
        }
    }

    /// Whether a status of the checker counts as a refusal here.
    pub fn refuses(&self, status: u16) -> (res: bool)
        ensures
            res == refused(*self, status),
    {
        if self.relays_refusal_body() {
            status > 399
        } else {
            400 <= status && status < 600
        }
    }
}

/// What is answered to a client: a status and a body.
#[derive(Clone, Debug, PartialEq, Eq)]
pub struct Reply {
    pub status: u16,
    pub body: String,
}

/// The mathematical value of a [`Reply`].
pub struct ReplyView {
    pub status: u16,
    pub body: Seq<char>,
}

impl View for Reply {
    type V = ReplyView;

    open spec fn view(&self) -> ReplyView {
        ReplyView { status: self.status, body: self.body@ }
    }
}

/// A request to the checker.
#[derive(Clone, Debug, PartialEq, Eq)]
pub struct Outbound {
    pub method: Method,
    pub url: String,
    /// The value of the `Authorization` header.
    pub authorization: String,
    /// The body, sent as JSON, where the request has one.
    pub body: Option<String>,
}

/// The mathematical value of an [`Outbound`].
pub struct OutboundView {
    pub method: Method,
    pub url: Seq<char>,
    pub authorization: Seq<char>,
    pub body: Option<Seq<char>>,
}

impl View for Outbound {
    type V = OutboundView;

    open spec fn view(&self) -> OutboundView {
        OutboundView {
            method: self.method,
            url: self.url@,
            authorization: self.authorization@,
            body: match self.body {
                Some(text) => Some(text@),
                None => None,
            },
        }
    }
}

/// The answer to a client that holds no token for the service of an
/// endpoint.
pub open spec fn unauthorized(endpoint: Endpoint) -> ReplyView {
    ReplyView {
        status: 401,
        body: match family_of(endpoint) {
            Family::Policy => "Unauthorized"@,
            _ => Seq::empty(),
        },
    }
}

/// What an endpoint does with a request: without a token the client is
/// answered at once; with one the checker at `address` is asked, with the
/// token as bearer.
pub open spec fn request_of(
    endpoint: Endpoint,
    address: Seq<char>,
    token: Option<Seq<char>>,
    body: Seq<char>,
) -> Result<OutboundView, ReplyView> {
    match token {
        None => Err(unauthorized(endpoint)),
        Some(token) => Ok(
            OutboundView {
                method: method_of(endpoint),
                url: address + path_of(endpoint),
                authorization: "Bearer "@ + token,
                body: if carries_body(endpoint) {
                    Some(body)
                } else {
                    None
                },
            },
        ),
    }
}

/// Decides what an endpoint does with a request, given the address of the
/// checker, the token that the client's cookie holds, if any, and the body
/// of the request.
pub fn plan_request(endpoint: Endpoint, address: &str, token: Option<&str>, body: String) -> (res:
    Result<Outbound, Reply>)
    ensures
        match res {
            Ok(outbound) => request_of(
                endpoint,
                address@,
                match token {
                    Some(token) => Some(token@),
                    None => None,
                },
                body@,
            ) == Ok::<OutboundView, ReplyView>(outbound@),
            Err(reply) => request_of(
                endpoint,
                address@,
                match token {
                    Some(token) => Some(token@),
                    None => None,
                },
                body@,
            ) == Err::<OutboundView, ReplyView>(reply@),
        },
{
    match token {
        None => {
            let text = match endpoint.family() {
                Family::Policy => "Unauthorized".to_owned(),
                _ => String::new(),
            };
            Err(Reply { status: 401, body: text })
        },
        Some(token) => {
            let mut url = address.to_owned();
            let path = endpoint.path();
            url.append(path.as_str());
            let mut authorization = "Bearer ".to_owned();
            authorization.append(token);
            let body = if endpoint.carries_body() {
                Some(body)
            } else {
                None
            };
            Ok(Outbound { method: endpoint.method(), url, authorization, body })
        },
    }
}

/// A failure of the transport, in the two forms it can be shown in.
#[derive(Clone, Debug, PartialEq, Eq)]
pub struct Failure {
    /// The failure as a developer is shown it.
    pub debug: String,
    /// The failure as a user is shown it.
    pub display: String,
}

/// How a request to the checker went.
#[derive(Debug, PartialEq, Eq)]
pub enum Upstream {
    /// The request could not be sent.
    Unsent(Failure),
    /// The checker answered with `status`. `body` is what it sent, or why
    /// that could not be read; `description` describes the status where it
    /// is an error.
    Replied { status: u16, body: Result<String, Failure>, description: String },
}

/// The text that tells a client of a failure of the transport.
pub open spec fn failure_text(endpoint: Endpoint, failure: Failure) -> Seq<char> {
    match family_of(endpoint) {
        Family::Policy => failure.display@,
        _ => "Err: "@ + failure.debug@,
    }
}

/// The answer to the client for each way a request to the checker can go.
///
/// A request that could not be sent is a fault of the service. A refusal of
/// the checker keeps its status; it is handed on with the checker's words,
/// or none where they could not be read, or with the description of the
/// status, as the endpoint has it. Everything else is answered with 200 and
/// what the checker sent; where that could not be read, the service is at
/// fault.
pub open spec fn reply_of(endpoint: Endpoint, upstream: Upstream) -> ReplyView {
    match upstream {
        Upstream::Unsent(failure) => ReplyView {
            status: 500,
            body: failure_text(endpoint, failure),
        },
        Upstream::Replied { status, body, description } => {
            if refused(endpoint, status) {
                ReplyView {
                    status,
                    body: if relays_refusal_body(endpoint) {
                        match body {
                            Ok(text) => text@,
                            Err(_) => Seq::empty(),
                        }
                    } else {
                        description@
                    },
                }
            } else {
                match body {
                    Ok(text) => ReplyView { status: 200, body: text@ },
                    Err(failure) => ReplyView {
                        status: 500,
                        body: failure_text(endpoint, failure),
                    },
                }
            }
        },
    }
}

fn failure_message(endpoint: Endpoint, failure: Failure) -> (res: String)
    ensures
        res@ == failure_text(endpoint, failure),
{
    match endpoint.family() {
        Family::Policy => failure.display,
        _ => {
            let mut res = "Err: ".to_owned();
            res.append(failure.debug.as_str());
            res
        },
    }
}

/// Decides what the client is answered, given how the request to the
/// checker went.
pub fn relay_reply(endpoint: Endpoint, upstream: Upstream) -> (res: Reply)
    ensures
        res@ == reply_of(endpoint, upstream),
{
    match upstream {
        Upstream::Unsent(failure) => Reply {
            status: 500,
            body: failure_message(endpoint, failure),
        },
        Upstream::Replied { status, body, description } => {
            if endpoint.refuses(status) {
                let text = if endpoint.relays_refusal_body() {
                    match body {
                        Ok(text) => text,
                        Err(_) => String::new(),
                    }
                } else {
                    description
                };
                Reply { status, body: text }
            } else {
                match body {
                    Ok(text) => Reply { status: 200, body: text },
                    Err(failure) => Reply { status: 500, body: failure_message(endpoint, failure) },
                }
            }
        },
    }
}

} // verus!
