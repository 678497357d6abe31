//! The errors that are reported to a caller, with their HTTP status and text.
use vstd::prelude::*;
use vstd::string::*;

verus! {

/// HTTP status of a successful liveness check or read.
pub const OK: u16 = 200;

/// HTTP status of an accepted webhook: it is queued, not yet delivered.
pub const ACCEPTED: u16 = 202;

/// HTTP status of a successful unsubscribe.
pub const NO_CONTENT: u16 = 204;

pub const BAD_REQUEST: u16 = 400;

pub const UNAUTHORIZED: u16 = 401;

pub const FORBIDDEN: u16 = 403;

pub const NOT_FOUND: u16 = 404;

pub const REQUEST_TIMEOUT: u16 = 408;

pub const PAYLOAD_TOO_LARGE: u16 = 413;

pub const TOO_MANY_REQUESTS: u16 = 429;

pub const INTERNAL_SERVER_ERROR: u16 = 500;

pub const BAD_GATEWAY: u16 = 502;

pub const SERVICE_UNAVAILABLE: u16 = 503;

/// Everything that can go wrong while serving a request or a queued record.
#[derive(Debug)]
pub enum AppError {
    EndpointRequired,
    EndpointTooLong,
    InvalidEndpointUrl,
    EndpointNotHttps,
    EndpointHostMissing,
    EndpointHostNotAllowed,
    SubscriptionKeysTooLong,
    InvalidP256dh,
    InvalidP256dhLength,
    InvalidAuth,
    InvalidAuthLength,
    DeleteTokenRequired,
    SubscriptionNotFound,
    InvalidDeleteToken,
    IdAllocationFailed,
    RateLimitExceeded,
    PayloadExceedsLimit,
    MetadataTooLarge,
    BodyTimeout,
    InvalidBody,
    ChunkOverheadTooLarge,
    ChunkSizeTooSmall,
    UuidTooLong,
    QueuePayloadTooLarge,
    QueueRecordCorrupt,
    QueueFull,
    QueueWriterBusy,
    QueueWriterDropped,
    QueueWriterCrashed(String),
    SubscriptionExpired,
    PushPayloadTooLarge,
    PushBuilder(String),
    PushFailed(String),
    /// A failure of the storage or of a codec, with its own description.
    Internal(String),
}

/// What an [`AppError`] says, with the details as plain text.
pub ghost struct ErrorView {
    pub status: u16,
    pub message: Seq<char>,
}

/// The status and the message that an error is reported with.
pub open spec fn error_view(e: AppError) -> ErrorView {
    let (status, message) = match e {
        AppError::EndpointRequired => (BAD_REQUEST, "endpoint required"@),
        AppError::EndpointTooLong => (BAD_REQUEST, "endpoint too long"@),
        AppError::InvalidEndpointUrl => (BAD_REQUEST, "invalid endpoint url"@),
        AppError::EndpointNotHttps => (BAD_REQUEST, "endpoint must be https"@),
        AppError::EndpointHostMissing => (BAD_REQUEST, "endpoint host missing"@),
        AppError::EndpointHostNotAllowed => (BAD_REQUEST, "endpoint host not allowed"@),
        AppError::SubscriptionKeysTooLong => (BAD_REQUEST, "subscription keys too long"@),
        AppError::InvalidP256dh => (BAD_REQUEST, "invalid p256dh"@),
        AppError::InvalidP256dhLength => (BAD_REQUEST, "invalid p256dh length"@),
        AppError::InvalidAuth => (BAD_REQUEST, "invalid auth"@),
        AppError::InvalidAuthLength => (BAD_REQUEST, "invalid auth length"@),
        AppError::DeleteTokenRequired => (UNAUTHORIZED, "delete token required"@),
        AppError::SubscriptionNotFound => (NOT_FOUND, "subscription not found"@),
        AppError::InvalidDeleteToken => (FORBIDDEN, "invalid delete token"@),
        AppError::IdAllocationFailed => (INTERNAL_SERVER_ERROR, "failed to allocate unique id"@),
        AppError::RateLimitExceeded => (TOO_MANY_REQUESTS, "rate limit exceeded"@),
        AppError::PayloadExceedsLimit => (PAYLOAD_TOO_LARGE, "payload exceeds limit"@),
        AppError::MetadataTooLarge => (PAYLOAD_TOO_LARGE, "metadata too large"@),
        AppError::BodyTimeout => (REQUEST_TIMEOUT, "request body timeout"@),
        AppError::InvalidBody => (BAD_REQUEST, "invalid request body"@),
        AppError::ChunkOverheadTooLarge => (
            PAYLOAD_TOO_LARGE,
            "chunk overhead exceeds push limit"@,
        ),
        AppError::ChunkSizeTooSmall => (PAYLOAD_TOO_LARGE, "chunk size too small"@),
        AppError::UuidTooLong => (INTERNAL_SERVER_ERROR, "uuid too long"@),
        AppError::QueuePayloadTooLarge => (PAYLOAD_TOO_LARGE, "queue payload too large"@),
        AppError::QueueRecordCorrupt => (INTERNAL_SERVER_ERROR, "queue record corrupt"@),
        AppError::QueueFull => (SERVICE_UNAVAILABLE, "queue full"@),
        AppError::QueueWriterBusy => (SERVICE_UNAVAILABLE, "queue writer busy"@),
        AppError::QueueWriterDropped => (INTERNAL_SERVER_ERROR, "queue writer dropped"@),
        AppError::QueueWriterCrashed(detail) => (
            INTERNAL_SERVER_ERROR,
            "queue writer crashed: "@ + detail@,
        ),
        AppError::SubscriptionExpired => (BAD_GATEWAY, "subscription expired"@),
        AppError::PushPayloadTooLarge => (PAYLOAD_TOO_LARGE, "push payload too large"@),
        AppError::PushBuilder(detail) => (
            INTERNAL_SERVER_ERROR,
            "push builder error: "@ + detail@,
        ),
        AppError::PushFailed(detail) => (BAD_GATEWAY, "push failed: "@ + detail@),
        AppError::Internal(detail) => (INTERNAL_SERVER_ERROR, detail@),
    };
    ErrorView { status, message }
}

impl View for AppError {
    type V = ErrorView;

    open spec fn view(&self) -> ErrorView {
        error_view(*self)
    }
}

impl AppError {
    /// The HTTP status that the error is reported with.
    pub fn status(&self) -> (status: u16)
        ensures
            status == self@.status,
    {
        match self {
            AppError::EndpointRequired => BAD_REQUEST,
            AppError::EndpointTooLong => BAD_REQUEST,
            AppError::InvalidEndpointUrl => BAD_REQUEST,
            AppError::EndpointNotHttps => BAD_REQUEST,
            AppError::EndpointHostMissing => BAD_REQUEST,
            AppError::EndpointHostNotAllowed => BAD_REQUEST,
            AppError::SubscriptionKeysTooLong => BAD_REQUEST,
            AppError::InvalidP256dh => BAD_REQUEST,
            AppError::InvalidP256dhLength => BAD_REQUEST,
            AppError::InvalidAuth => BAD_REQUEST,
            AppError::InvalidAuthLength => BAD_REQUEST,
            AppError::DeleteTokenRequired => UNAUTHORIZED,
            AppError::SubscriptionNotFound => NOT_FOUND,
            AppError::InvalidDeleteToken => FORBIDDEN,
            AppError::IdAllocationFailed => INTERNAL_SERVER_ERROR,
            AppError::RateLimitExceeded => TOO_MANY_REQUESTS,
            AppError::PayloadExceedsLimit => PAYLOAD_TOO_LARGE,
            AppError::MetadataTooLarge => PAYLOAD_TOO_LARGE,
            AppError::BodyTimeout => REQUEST_TIMEOUT,
            AppError::InvalidBody => BAD_REQUEST,
            AppError::ChunkOverheadTooLarge => PAYLOAD_TOO_LARGE,
            AppError::ChunkSizeTooSmall => PAYLOAD_TOO_LARGE,
            AppError::UuidTooLong => INTERNAL_SERVER_ERROR,
            AppError::QueuePayloadTooLarge => PAYLOAD_TOO_LARGE,
            AppError::QueueRecordCorrupt => INTERNAL_SERVER_ERROR,
            AppError::QueueFull => SERVICE_UNAVAILABLE,
            AppError::QueueWriterBusy => SERVICE_UNAVAILABLE,
            AppError::QueueWriterDropped => INTERNAL_SERVER_ERROR,
            AppError::QueueWriterCrashed(_) => INTERNAL_SERVER_ERROR,
            AppError::SubscriptionExpired => BAD_GATEWAY,
            AppError::PushPayloadTooLarge => PAYLOAD_TOO_LARGE,
            AppError::PushBuilder(_) => INTERNAL_SERVER_ERROR,
            AppError::PushFailed(_) => BAD_GATEWAY,
            AppError::Internal(_) => INTERNAL_SERVER_ERROR,
        }
    }

    /// The text that the error is reported with.
    pub fn message(&self) -> (message: String)
        ensures
            message@ == self@.message,
    {
        match self {
            AppError::EndpointRequired => "endpoint required".to_owned(),
            AppError::EndpointTooLong => "endpoint too long".to_owned(),
            AppError::InvalidEndpointUrl => "invalid endpoint url".to_owned(),
            AppError::EndpointNotHttps => "endpoint must be https".to_owned(),
            AppError::EndpointHostMissing => "endpoint host missing".to_owned(),
            AppError::EndpointHostNotAllowed => "endpoint host not allowed".to_owned(),
            AppError::SubscriptionKeysTooLong => "subscription keys too long".to_owned(),
            AppError::InvalidP256dh => "invalid p256dh".to_owned(),
            AppError::InvalidP256dhLength => "invalid p256dh length".to_owned(),
            AppError::InvalidAuth => "invalid auth".to_owned(),
            AppError::InvalidAuthLength => "invalid auth length".to_owned(),
            AppError::DeleteTokenRequired => "delete token required".to_owned(),
            AppError::SubscriptionNotFound => "subscription not found".to_owned(),
            AppError::InvalidDeleteToken => "invalid delete token".to_owned(),
            AppError::IdAllocationFailed => "failed to allocate unique id".to_owned(),
            AppError::RateLimitExceeded => "rate limit exceeded".to_owned(),
            AppError::PayloadExceedsLimit => "payload exceeds limit".to_owned(),
            AppError::MetadataTooLarge => "metadata too large".to_owned(),
            AppError::BodyTimeout => "request body timeout".to_owned(),
            AppError::InvalidBody => "invalid request body".to_owned(),
            AppError::ChunkOverheadTooLarge => "chunk overhead exceeds push limit".to_owned(),
            AppError::ChunkSizeTooSmall => "chunk size too small".to_owned(),
            AppError::UuidTooLong => "uuid too long".to_owned(),
            AppError::QueuePayloadTooLarge => "queue payload too large".to_owned(),
            AppError::QueueRecordCorrupt => "queue record corrupt".to_owned(),
            AppError::QueueFull => "queue full".to_owned(),
            AppError::QueueWriterBusy => "queue writer busy".to_owned(),
            AppError::QueueWriterDropped => "queue writer dropped".to_owned(),
            AppError::QueueWriterCrashed(detail) => "queue writer crashed: ".to_owned().concat(
                detail.as_str(),
            ),
            AppError::SubscriptionExpired => "subscription expired".to_owned(),
            AppError::PushPayloadTooLarge => "push payload too large".to_owned(),
            AppError::PushBuilder(detail) => "push builder error: ".to_owned().concat(
                detail.as_str(),
            ),
            AppError::PushFailed(detail) => "push failed: ".to_owned().concat(detail.as_str()),
            AppError::Internal(detail) => detail.clone(),
        }
    }
}

/// What is wrong with a request is reported as such: a request that is not in
/// order, that may not be made, that is about nothing, that is too large, too slow
/// or one too many. Anything else is on the side of the server.
pub proof fn law_statuses(e: AppError)
    ensures
        e@.status == 401 <==> e is DeleteTokenRequired,
        e@.status == 403 <==> e is InvalidDeleteToken,
        e@.status == 404 <==> e is SubscriptionNotFound,
        e@.status == 408 <==> e is BodyTimeout,
        e@.status == 413 <==> e is PayloadExceedsLimit || e is MetadataTooLarge
            || e is ChunkOverheadTooLarge || e is ChunkSizeTooSmall || e is QueuePayloadTooLarge
            || e is PushPayloadTooLarge,
        e@.status == 429 <==> e is RateLimitExceeded,
        e@.status == 502 <==> e is SubscriptionExpired || e is PushFailed,
        e@.status == 503 <==> e is QueueFull || e is QueueWriterBusy,
        e@.status == 500 <==> e is IdAllocationFailed || e is UuidTooLong || e is QueueRecordCorrupt
            || e is QueueWriterDropped || e is QueueWriterCrashed || e is PushBuilder
            || e is Internal,
        e@.status == 400 || e@.status == 401 || e@.status == 403 || e@.status == 404 || e@.status
            == 408 || e@.status == 413 || e@.status == 429 || e@.status == 500 || e@.status == 502
            || e@.status == 503,
{
}

/// A message ends with the detail that the error holds, in full.
pub proof fn law_details_are_reported(detail: String)
    ensures
        AppError::Internal(detail)@.message == detail@,
        ({
            let message = AppError::QueueWriterCrashed(detail)@.message;
            message.len() == 22 + detail@.len() && message.skip(22) == detail@
        }),
        ({
            let message = AppError::PushBuilder(detail)@.message;
            message.len() == 20 + detail@.len() && message.skip(20) == detail@
        }),
        ({
            let message = AppError::PushFailed(detail)@.message;
            message.len() == 13 + detail@.len() && message.skip(13) == detail@
        }),
{
    reveal_strlit("queue writer crashed: ");
    reveal_strlit("push builder error: ");
    reveal_strlit("push failed: ");
    assert(("queue writer crashed: "@ + detail@).skip(22) =~= detail@);
    assert(("push builder error: "@ + detail@).skip(20) =~= detail@);
    assert(("push failed: "@ + detail@).skip(13) =~= detail@);
}

} // verus!
