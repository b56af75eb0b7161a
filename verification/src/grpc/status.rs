//! How requests are refused.
use vstd::prelude::*;

use crate::engine::types::ClientError;
use crate::scan::{constant_time_eq, contains, occurs, after_prefix, strip_prefix};

verus! {

/// The kind of a refusal.
#[derive(Debug, Clone, Copy, PartialEq, Eq, Structural)]
pub enum Code {
    InvalidArgument,
    NotFound,
    AlreadyExists,
    FailedPrecondition,
    ResourceExhausted,
    Unavailable,
    Unauthenticated,
    Unimplemented,
    Internal,
}

/// A refusal.
#[derive(Debug, PartialEq, Eq)]
pub struct Status {
    pub code: Code,
    pub message: String,
}

/// A refusal with its message as characters.
#[verifier::ext_equal]
pub struct StatusView {
    pub code: Code,
    pub message: Seq<char>,
}

impl Status {
    pub open spec fn view(&self) -> StatusView {
        StatusView { code: self.code, message: self.message@ }
    }

    pub fn new(code: Code, message: &str) -> (r: Self)
        ensures
            r@ == (StatusView { code, message: message@ }),
    {
        Status { code, message: message.to_owned() }
    }
}

/// The refusal of an argument.
pub open spec fn invalid(message: Seq<char>) -> StatusView {
    StatusView { code: Code::InvalidArgument, message }
}

/// The refusal of the argument `value`, named between two texts.
pub fn invalid_value(before: &str, value: &str, after: &str) -> (r: Status)
    ensures
        r@ == invalid(before@ + value@ + after@),
{
    let mut message: String = before.to_owned();
    message.append(value);
    message.append(after);
    Status { code: Code::InvalidArgument, message }
}

/// The kind of refusal that an error message of the orchestrator stands for.
pub open spec fn code_of_message(message: Seq<char>) -> Code {
    if occurs("not found"@, message) {
        Code::NotFound
    } else if occurs("already exists"@, message) {
        Code::AlreadyExists
    } else if occurs("not spliced"@, message) || occurs("already spliced"@, message) {
        Code::FailedPrecondition
    } else {
        Code::Internal
    }
}

/// The refusal that an error message of the orchestrator stands for.
pub fn event_to_error_status(message: String) -> (r: Status)
    ensures
        r == (Status { code: code_of_message(message@), message }),
{
    let code: Code = if contains(message.as_str(), "not found") {
        Code::NotFound
    } else if contains(message.as_str(), "already exists") {
        Code::AlreadyExists
    } else if contains(message.as_str(), "not spliced") || contains(
        message.as_str(),
        "already spliced",
    ) {
        Code::FailedPrecondition
    } else {
        Code::Internal
    };
    Status { code, message }
}

/// The kind of refusal that a client error stands for.
pub open spec fn code_of_error(err: ClientError) -> Code {
    match err {
        ClientError::WorkerNotFound => Code::NotFound,
        ClientError::NamespaceNotFound => Code::NotFound,
        ClientError::NamespaceAlreadyExists => Code::AlreadyExists,
        ClientError::NoTunnelWorker => Code::FailedPrecondition,
        ClientError::IpExhausted => Code::ResourceExhausted,
        ClientError::ShellGone => Code::Unavailable,
    }
}

/// The refusal that a client error stands for, in the given words.
pub fn client_error_to_status(err: ClientError, message: String) -> (r: Status)
    ensures
        r == (Status { code: code_of_error(err), message }),
{
    let code: Code = match err {
        ClientError::WorkerNotFound => Code::NotFound,
        ClientError::NamespaceNotFound => Code::NotFound,
        ClientError::NamespaceAlreadyExists => Code::AlreadyExists,
        ClientError::NoTunnelWorker => Code::FailedPrecondition,
        ClientError::IpExhausted => Code::ResourceExhausted,
        ClientError::ShellGone => Code::Unavailable,
    };
    Status { code, message }
}

/// What an authorization header is answered.
pub open spec fn authorized(header: Option<Seq<char>>, secret: Seq<char>) -> Result<(), StatusView> {
    let token = match header {
        Some(h) => after_prefix(h, "Bearer "@),
        None => None,
    };
    match token {
        Some(t) => if t == secret {
            Ok(())
        } else {
            Err(StatusView { code: Code::Unauthenticated, message: "invalid token"@ })
        },
        None => Err(
            StatusView { code: Code::Unauthenticated, message: "missing authorization header"@ },
        ),
    }
}

/// Checks the header `Authorization: Bearer <token>` against the configured secret.
pub fn check_client_auth(header: Option<&str>, secret: &str) -> (r: Result<(), Status>)
    ensures
        outcome(r) == authorized(
            match header {
                Some(h) => Some(h@),
                None => None,
            },
            secret@,
        ),
{
    let token: Option<&str> = match header {
        Some(h) => strip_prefix(h, "Bearer "),
        None => None,
    };
    match token {
        Some(t) => if constant_time_eq(t, secret) {
            Ok(())
        } else {
            Err(Status::new(Code::Unauthenticated, "invalid token"))
        },
        None => Err(Status::new(Code::Unauthenticated, "missing authorization header")),
    }
}

/// A result with its refusal as characters.
pub open spec fn outcome<T>(r: Result<T, Status>) -> Result<T, StatusView> {
    match r {
        Ok(v) => Ok(v),
        Err(e) => Err(e@),
    }
}

/// A client is let in exactly when it shows the secret after the word `Bearer`.
pub proof fn law_only_the_secret_opens(header: Option<Seq<char>>, secret: Seq<char>)
    ensures
        authorized(header, secret) is Ok <==> header == Some("Bearer "@ + secret),
{
    let n = "Bearer "@.len() as int;
    let shown = "Bearer "@ + secret;
    assert(shown.take(n) =~= "Bearer "@);
    assert(shown.skip(n) =~= secret);
    if let Some(h) = header {
        if authorized(header, secret) is Ok {
            assert(h =~= h.take(n) + h.skip(n));
        }
    }
}

} // verus!
