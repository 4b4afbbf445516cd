use policy_reasoner_client_backend::auth::AuthDataType;
use policy_reasoner_client_backend::relay::{
    plan_request, relay_reply, Endpoint, Failure, Family, Method, Outbound, Reply, Upstream,
};

fn all_endpoints() -> Vec<Endpoint> {
    vec![
        Endpoint::ExecTask,
        Endpoint::AccessData,
        Endpoint::ValidateWorkflow,
        Endpoint::Policies,
        Endpoint::Policy { version: 3 },
        Endpoint::ActivePolicy,
        Endpoint::ActivatePolicy,
        Endpoint::DeactivatePolicy,
        Endpoint::AddPolicy,
        Endpoint::ReasonerConnectorInfo,
    ]
}

fn failure() -> Failure {
    Failure { debug: "Error { kind: Request }".to_string(), display: "error sending request".to_string() }
}

fn reply(status: u16, body: &str) -> Reply {
    Reply { status, body: body.to_string() }
}

#[test]
fn endpoints_belong_to_their_family() {
    assert_eq!(Endpoint::ExecTask.family(), Family::Deliberation);
    assert_eq!(Endpoint::AccessData.family(), Family::Deliberation);
    assert_eq!(Endpoint::ValidateWorkflow.family(), Family::Deliberation);
    assert_eq!(Endpoint::Policies.family(), Family::Policy);
    assert_eq!(Endpoint::Policy { version: 1 }.family(), Family::Policy);
    assert_eq!(Endpoint::ActivePolicy.family(), Family::Policy);
    assert_eq!(Endpoint::ActivatePolicy.family(), Family::Policy);
    assert_eq!(Endpoint::DeactivatePolicy.family(), Family::Policy);
    assert_eq!(Endpoint::AddPolicy.family(), Family::Policy);
    assert_eq!(Endpoint::ReasonerConnectorInfo.family(), Family::Connector);
}

#[test]
fn endpoints_need_the_token_of_their_service() {
    assert_eq!(Endpoint::ExecTask.service(), AuthDataType::Deliberation);
    assert_eq!(Endpoint::AccessData.service(), AuthDataType::Deliberation);
    assert_eq!(Endpoint::ValidateWorkflow.service(), AuthDataType::Deliberation);
    assert_eq!(Endpoint::Policies.service(), AuthDataType::Policy);
    assert_eq!(Endpoint::AddPolicy.service(), AuthDataType::Policy);
    assert_eq!(Endpoint::ReasonerConnectorInfo.service(), AuthDataType::Policy);
}

#[test]
fn endpoints_have_their_method_and_path() {
    let expected = [
        (Method::Post, "/v1/deliberation/execute-task", true),
        (Method::Post, "/v1/deliberation/access-data", true),
        (Method::Post, "/v1/deliberation/execute-workflow", true),
        (Method::Get, "/v1/management/policies", false),
        (Method::Get, "/v1/management/policies/3", false),
        (Method::Get, "/v1/management/policies/active", false),
        (Method::Put, "/v1/management/policies/active", true),
        (Method::Delete, "/v1/management/policies/active", false),
        (Method::Post, "/v1/management/policies", true),
        (Method::Get, "/v1/management/reasoner-connector-context", false),
    ];
    for (endpoint, (method, path, body)) in all_endpoints().into_iter().zip(expected) {
        assert_eq!(endpoint.method(), method);
        assert_eq!(endpoint.path(), path);
        assert_eq!(endpoint.carries_body(), body);
    }
    assert_eq!(Endpoint::Policy { version: -12 }.path(), "/v1/management/policies/-12");
}

#[test]
fn request_without_token_is_unauthorized() {
    for endpoint in all_endpoints() {
        let expected = match endpoint.family() {
            Family::Policy => reply(401, "Unauthorized"),
            _ => reply(401, ""),
        };
        assert_eq!(
            plan_request(endpoint, "http://localhost:3030", None, "{}".to_string()),
            Err(expected)
        );
    }
}

#[test]
fn request_with_token_asks_the_checker() {
    assert_eq!(
        plan_request(Endpoint::ExecTask, "http://localhost:3030", Some("abc"), "{\"a\":1}".to_string()),
        Ok(Outbound {
            method: Method::Post,
            url: "http://localhost:3030/v1/deliberation/execute-task".to_string(),
            authorization: "Bearer abc".to_string(),
            body: Some("{\"a\":1}".to_string()),
        })
    );
    assert_eq!(
        plan_request(Endpoint::Policy { version: 42 }, "http://checker", Some("t"), "unused".to_string()),
        Ok(Outbound {
            method: Method::Get,
            url: "http://checker/v1/management/policies/42".to_string(),
            authorization: "Bearer t".to_string(),
            body: None,
        })
    );
    assert_eq!(
        plan_request(Endpoint::DeactivatePolicy, "http://checker", Some(""), String::new()),
        Ok(Outbound {
            method: Method::Delete,
            url: "http://checker/v1/management/policies/active".to_string(),
            authorization: "Bearer ".to_string(),
            body: None,
        })
    );
}

#[test]
fn refusal_depends_on_the_endpoint() {
    assert!(!Endpoint::ExecTask.refuses(399));
    assert!(Endpoint::ExecTask.refuses(400));
    assert!(Endpoint::ExecTask.refuses(600));
    assert!(Endpoint::AddPolicy.refuses(999));
    assert!(!Endpoint::Policies.refuses(399));
    assert!(Endpoint::Policies.refuses(400));
    assert!(Endpoint::Policies.refuses(599));
    assert!(!Endpoint::Policies.refuses(600));
    assert!(!Endpoint::ReasonerConnectorInfo.refuses(700));
    assert!(Endpoint::ExecTask.relays_refusal_body());
    assert!(Endpoint::ActivatePolicy.relays_refusal_body());
    assert!(!Endpoint::ActivePolicy.relays_refusal_body());
    assert!(!Endpoint::ReasonerConnectorInfo.relays_refusal_body());
}

#[test]
fn unsent_request_is_a_server_error() {
    assert_eq!(
        relay_reply(Endpoint::ExecTask, Upstream::Unsent(failure())),
        reply(500, "Err: Error { kind: Request }")
    );
    assert_eq!(
        relay_reply(Endpoint::ReasonerConnectorInfo, Upstream::Unsent(failure())),
        reply(500, "Err: Error { kind: Request }")
    );
    assert_eq!(
        relay_reply(Endpoint::Policies, Upstream::Unsent(failure())),
        reply(500, "error sending request")
    );
}

#[test]
fn accepted_request_is_answered_with_the_body() {
    for endpoint in all_endpoints() {
        assert_eq!(
            relay_reply(
                endpoint,
                Upstream::Replied {
                    status: 201,
                    body: Ok("{\"ok\":true}".to_string()),
                    description: String::new(),
                }
            ),
            reply(200, "{\"ok\":true}")
        );
    }
}

#[test]
fn unreadable_body_is_a_server_error() {
    assert_eq!(
        relay_reply(
            Endpoint::AccessData,
            Upstream::Replied { status: 200, body: Err(failure()), description: String::new() }
        ),
        reply(500, "Err: Error { kind: Request }")
    );
    assert_eq!(
        relay_reply(
            Endpoint::AddPolicy,
            Upstream::Replied { status: 200, body: Err(failure()), description: String::new() }
        ),
        reply(500, "error sending request")
    );
}

#[test]
fn refusal_keeps_its_status_and_body() {
    assert_eq!(
        relay_reply(
            Endpoint::ValidateWorkflow,
            Upstream::Replied {
                status: 403,
                body: Ok("denied".to_string()),
                description: "HTTP status client error (403 Forbidden)".to_string(),
            }
        ),
        reply(403, "denied")
    );
    assert_eq!(
        relay_reply(
            Endpoint::ActivatePolicy,
            Upstream::Replied {
                status: 404,
                body: Err(failure()),
                description: "HTTP status client error (404 Not Found)".to_string(),
            }
        ),
        reply(404, "")
    );
}

#[test]
fn refusal_is_described_where_the_body_is_not_relayed() {
    assert_eq!(
        relay_reply(
            Endpoint::Policy { version: 9 },
            Upstream::Replied {
                status: 404,
                body: Ok("no such version".to_string()),
                description: "HTTP status client error (404 Not Found)".to_string(),
            }
        ),
        reply(404, "HTTP status client error (404 Not Found)")
    );
    assert_eq!(
        relay_reply(
            Endpoint::ReasonerConnectorInfo,
            Upstream::Replied {
                status: 503,
                body: Err(failure()),
                description: "HTTP status server error (503 Service Unavailable)".to_string(),
            }
        ),
        reply(503, "HTTP status server error (503 Service Unavailable)")
    );
}
