//! The ways in which serving a request can fail.

use crate::json::{items, list, Json, JsonValue};
use vstd::prelude::*;

verus! {

/// Why a request could not be answered with the document it asked for.
#[derive(Clone, Copy, Debug, PartialEq, Eq, Structural)]
pub enum GatewayError {
    /// The chain's query service could not be reached.
    BackendUnreachable,
    /// A validator identity key is not written or encoded as one.
    MalformedIdentity,
    /// A native response lacks a part that the answer is made from.
    MissingField,
    /// The chain's parameters admit no answer.
    InvalidConfiguration,
    /// The chain has too few blocks to sample its block production rate.
    ChainTooYoung,
    /// The voter has no entry among the votes on the proposal.
    VoterNotFound,
    /// The voter has an entry among the votes, without a choice.
    VoteMissingChoice,
}

/// HTTP status of a reply that carries the document asked for.
pub const STATUS_OK: u16 = 200;

/// HTTP status of a reply to a request that the client got wrong.
pub const STATUS_BAD_REQUEST: u16 = 400;

/// HTTP status of a reply to a request that the gateway could not serve.
pub const STATUS_SERVER_ERROR: u16 = 500;

/// Code, in an error document, of a request that the client got wrong.
pub const CODE_INVALID_ARGUMENT: u64 = 3;

/// Code, in an error document, of a request that the gateway could not
/// serve.
pub const CODE_INTERNAL: u64 = 13;

pub const MESSAGE_BACKEND_UNREACHABLE: &'static str = "the chain's query service is unreachable";

pub const MESSAGE_MALFORMED_IDENTITY: &'static str = "malformed validator identity key";

pub const MESSAGE_MISSING_FIELD: &'static str = "the chain's response lacks an expected field";

pub const MESSAGE_INVALID_CONFIGURATION: &'static str =
    "the chain's parameters are invalid: the signed blocks window is empty";

pub const MESSAGE_CHAIN_TOO_YOUNG: &'static str =
    "the chain has too few blocks to estimate the block time";

pub const MESSAGE_VOTER_NOT_FOUND: &'static str = "voter not found";

pub const MESSAGE_VOTE_MISSING_CHOICE: &'static str = "vote without a choice";

/// What the gateway answers a request with: an HTTP status and a document.
#[derive(Debug, PartialEq, Eq)]
pub struct Reply {
    pub status: u16,
    pub body: Json,
}

impl GatewayError {
    /// Whether the failure is the client's: an expected absence, as opposed
    /// to a fault in the backend or in what it returned.
    pub open spec fn is_client_error(self) -> bool {
        self == GatewayError::VoterNotFound || self == GatewayError::VoteMissingChoice
    }

    /// The HTTP status that reports the failure.
    pub open spec fn status(self) -> u16 {
        if self.is_client_error() {
            STATUS_BAD_REQUEST
        } else {
            STATUS_SERVER_ERROR
        }
    }

    /// The code that an error document carries for the failure.
    pub open spec fn code(self) -> u64 {
        if self.is_client_error() {
            CODE_INVALID_ARGUMENT
        } else {
            CODE_INTERNAL
        }
    }

    /// A description of the failure that names no particular request.
    pub open spec fn message(self) -> Seq<char> {
        match self {
            GatewayError::BackendUnreachable => MESSAGE_BACKEND_UNREACHABLE@,
            GatewayError::MalformedIdentity => MESSAGE_MALFORMED_IDENTITY@,
            GatewayError::MissingField => MESSAGE_MISSING_FIELD@,
            GatewayError::InvalidConfiguration => MESSAGE_INVALID_CONFIGURATION@,
            GatewayError::ChainTooYoung => MESSAGE_CHAIN_TOO_YOUNG@,
            GatewayError::VoterNotFound => MESSAGE_VOTER_NOT_FOUND@,
            GatewayError::VoteMissingChoice => MESSAGE_VOTE_MISSING_CHOICE@,
        }
    }

    /// The HTTP status that reports the failure: a client error for a
    /// lookup that found nothing, a server error otherwise.
    pub fn http_status(&self) -> (status: u16)
        ensures
            status == self.status(),
    {
        match self {
            GatewayError::VoterNotFound | GatewayError::VoteMissingChoice => STATUS_BAD_REQUEST,
            _ => STATUS_SERVER_ERROR,
        }
    }

    /// The code that an error document carries for the failure.
    pub fn rpc_code(&self) -> (code: u64)
        ensures
            code == self.code(),
    {
        match self {
            GatewayError::VoterNotFound | GatewayError::VoteMissingChoice => CODE_INVALID_ARGUMENT,
            _ => CODE_INTERNAL,
        }
    }

    /// A description of the failure that names no particular request.
    pub fn describe(&self) -> (message: &'static str)
        ensures
            message@ == self.message(),
    {
        match self {
            GatewayError::BackendUnreachable => MESSAGE_BACKEND_UNREACHABLE,
            GatewayError::MalformedIdentity => MESSAGE_MALFORMED_IDENTITY,
            GatewayError::MissingField => MESSAGE_MISSING_FIELD,
            GatewayError::InvalidConfiguration => MESSAGE_INVALID_CONFIGURATION,
            GatewayError::ChainTooYoung => MESSAGE_CHAIN_TOO_YOUNG,
            GatewayError::VoterNotFound => MESSAGE_VOTER_NOT_FOUND,
            GatewayError::VoteMissingChoice => MESSAGE_VOTE_MISSING_CHOICE,
        }
    }
}

/// The document that reports a failure: its code, a message, and no
/// details.
pub open spec fn error_json(code: u64, message: Seq<char>) -> JsonValue {
    JsonValue::object().with("code"@, JsonValue::Number(code as nat)).with(
        "message"@,
        JsonValue::Text(message),
    ).with("details"@, JsonValue::List(Seq::empty()))
}

/// Writes the document that reports a failure.
pub fn error_document(code: u64, message: String) -> (doc: Json)
    ensures
        doc@ == error_json(code, message@),
{
    Json::object().with("code", Json::Number(code)).with("message", Json::Text(message)).with(
        "details",
        list(items()),
    )
}

/// The reply that reports the failure `error` of any request.
pub fn error_reply(error: GatewayError) -> (reply: Reply)
    ensures
        reply.status == error.status(),
        reply.body@ == error_json(error.code(), error.message()),
{
    let message: String = error.describe().to_owned();
    Reply { status: error.http_status(), body: error_document(error.rpc_code(), message) }
}

} // verus!
