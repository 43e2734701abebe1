//! Delivery client decisions: whether and how to submit one snapshot, and
//! the exact classification of what came back. The transport itself (the
//! HTTP POST) lives in the surrounding program, which builds the request
//! from a `RequestPlan` and hands the outcome back for classification.

use vstd::prelude::*;
use crate::config::ServerConfig;
use crate::errors::DeliveryError;
use crate::text::{replace_spec, replace_str, str_eq};

verus! {

/// What the backend reports about a pending registration. An approved
/// response may carry the token, which goes straight to the vault.
#[derive(Clone, Copy, Debug, PartialEq, Eq, Structural)]
pub enum RegistrationStatus {
    Approved,
    Pending,
    Rejected,
    NotFound,
    Unknown,
}

/// Classify the `status` field of a status-check response: the backend
/// reports `approved`, `pending`, `rejected` or `not_found`, and anything
/// else is unknown.
pub fn classify_registration_status(status: &str) -> (r: RegistrationStatus)
    ensures
        status@ == "approved"@ ==> r == RegistrationStatus::Approved,
        status@ == "pending"@ ==> r == RegistrationStatus::Pending,
        status@ == "rejected"@ ==> r == RegistrationStatus::Rejected,
        status@ == "not_found"@ ==> r == RegistrationStatus::NotFound,
        status@ != "approved"@ && status@ != "pending"@ && status@ != "rejected"@ && status@
            != "not_found"@ ==> r == RegistrationStatus::Unknown,
{
    proof {
        reveal_strlit("approved");
        reveal_strlit("pending");
        reveal_strlit("rejected");
        reveal_strlit("not_found");
        assert("approved"@.len() == 8 && "approved"@[0] == 'a');
        assert("pending"@.len() == 7);
        assert("rejected"@.len() == 8 && "rejected"@[0] == 'r');
        assert("not_found"@.len() == 9);
    }
    if str_eq(status, "approved") {
        RegistrationStatus::Approved
    } else if str_eq(status, "pending") {
        RegistrationStatus::Pending
    } else if str_eq(status, "rejected") {
        RegistrationStatus::Rejected
    } else if str_eq(status, "not_found") {
        RegistrationStatus::NotFound
    } else {
        RegistrationStatus::Unknown
    }
}

/// What one delivery attempt produced at the transport level: a response
/// with its status and body, or no response at all (DNS failure, connection
/// refused, timeout).
pub enum HttpOutcome {
    Response { status: u16, body: String },
    NoResponse { detail: String },
}

/// The classification of one transport outcome: any 2xx status is success,
/// 401 is an invalid credential, 403 a revoked one, 400 echoes the server's
/// detail, 5xx is a transient server error, anything else is unexpected,
/// and a missing response is a network failure.
pub open spec fn classify_spec(outcome: HttpOutcome) -> Result<(), DeliveryError> {
    match outcome {
        HttpOutcome::Response { status, body } => {
            if 200 <= status < 300 {
                Ok(())
            } else if status == 401 {
                Err(DeliveryError::Unauthorized)
            } else if status == 403 {
                Err(DeliveryError::Forbidden)
            } else if status == 400 {
                Err(DeliveryError::BadRequest(body))
            } else if 500 <= status <= 599 {
                Err(DeliveryError::ServerError(status))
            } else {
                Err(DeliveryError::Unexpected(status, body))
            }
        },
        HttpOutcome::NoResponse { detail } => Err(DeliveryError::Network(detail)),
    }
}

/// Classify one transport outcome exactly as the specification table does.
pub fn classify_response(outcome: HttpOutcome) -> (r: Result<(), DeliveryError>)
    ensures
        r == classify_spec(outcome),
{
    match outcome {
        HttpOutcome::Response { status, body } => {
            if 200 <= status && status < 300 {
                Ok(())
            } else if status == 401 {
                Err(DeliveryError::Unauthorized)
            } else if status == 403 {
                Err(DeliveryError::Forbidden)
            } else if status == 400 {
                Err(DeliveryError::BadRequest(body))
            } else if 500 <= status && status <= 599 {
                Err(DeliveryError::ServerError(status))
            } else {
                Err(DeliveryError::Unexpected(status, body))
            }
        },
        HttpOutcome::NoResponse { detail } => Err(DeliveryError::Network(detail)),
    }
}

/// The bearer authorization header for a credential.
pub fn auth_header_value(token: &str) -> (r: String)
    ensures
        r@ == "Bearer "@ + token@,
{
    let mut h = String::from_str("Bearer ");
    h.append(token);
    h
}

/// The registration endpoint that belongs to a heartbeat URL: the handshake
/// posts to `agents/register/` where the telemetry posts to `heartbeat/`.
pub fn registration_url(server_url: &str) -> (r: String)
    ensures
        r@ == replace_spec(server_url@, "/heartbeat/"@, "/agents/register/"@),
{
    proof {
        reveal_strlit("/heartbeat/");
    }
    replace_str(server_url, "/heartbeat/", "/agents/register/")
}

/// The status endpoint for one agent's registration, derived from the
/// heartbeat URL.
pub fn status_check_url(server_url: &str, agent_id: &str) -> (r: String)
    ensures
        r@ == replace_spec(
            replace_spec(server_url@, "/api/heartbeat/"@, "/api/agents/register/"@),
            "/heartbeat/"@,
            "/agents/register/"@,
        ) + agent_id@ + "/status/"@,
{
    proof {
        reveal_strlit("/api/heartbeat/");
        reveal_strlit("/heartbeat/");
    }
    let step = replace_str(server_url, "/api/heartbeat/", "/api/agents/register/");
    let mut url = replace_str(step.as_str(), "/heartbeat/", "/agents/register/");
    url.append(agent_id);
    url.append("/status/");
    url
}

/// Everything the transport needs to submit one snapshot: where to post,
/// the authorization header, and the request timeout, which must never be
/// omitted lest an unbounded hang stall the whole polling loop.
pub struct RequestPlan {
    pub url: String,
    pub auth_header: String,
    pub timeout_seconds: u64,
}

/// Decide one delivery: nothing at all is sent when the backend is disabled
/// in configuration (an explicit opt-out, not an error); otherwise the exact
/// request to make, authorized with the given credential.
pub fn plan_delivery(server: &ServerConfig, token: &str) -> (r: Option<RequestPlan>)
    ensures
        !server.enabled ==> r is None,
        server.enabled ==> (r matches Some(p) && p.url@ == server.url@ && p.auth_header@
            == "Bearer "@ + token@ && p.timeout_seconds == server.timeout_seconds),
{
    if !server.enabled {
        return None;
    }
    Some(
        RequestPlan {
            url: server.url.clone(),
            auth_header: auth_header_value(token),
            timeout_seconds: server.timeout_seconds,
        },
    )
}

} // verus!
