//! Request and response headers, the wire error message, and related tokens.

use vstd::prelude::*;

use crate::error::Error;

verus! {

/// Reserved string tagging a cancellation execution error; not usable as a
/// user method name.
pub const CANCELLATION_TOKEN: &'static str = "RPC_TASK_CANCELLATION";

/// The delimiter that joins the cancellation token and a message id.
pub const CANCELLATION_TOKEN_DELIM: &'static str = ".";

/// Reserved string tagging a timeout execution error; not usable as a user
/// method name.
pub const TIMEOUT_TOKEN: &'static str = "RPC_TASK_TIMEOUT";

/// The correlation identifier carried by every message on a connection.
///
/// Ids are assigned monotonically by the initiating side and must be unique
/// among the messages that are currently outstanding.
pub type MessageId = u16;

/// Anything that carries a message id.
pub trait Metadata {
    /// The id, as a specification-level value.
    spec fn spec_id(&self) -> MessageId;

    /// Returns the message id.
    fn get_id(&self) -> (id: MessageId)
        ensures
            id == self.spec_id(),
    ;
}

/// Header of a request.
#[derive(Debug)]
pub struct RequestHeader {
    /// The id number of a request, tracked by the client.
    pub id: MessageId,
    /// The requested service and method as `"{service}.{method}"`.
    ///
    /// The split is on the last `.`; both names are case sensitive.
    pub service_method: String,
}

impl Metadata for RequestHeader {
    open spec fn spec_id(&self) -> MessageId {
        self.id
    }

    fn get_id(&self) -> (id: MessageId) {
        self.id
    }
}

/// Header of a response.
#[derive(Debug)]
pub struct ResponseHeader {
    /// The id of the request this response answers.
    pub id: MessageId,
    /// Whether the response carries an error message in its body.
    pub is_error: bool,
}

impl Metadata for ResponseHeader {
    open spec fn spec_id(&self) -> MessageId {
        self.id
    }

    fn get_id(&self) -> (id: MessageId) {
        self.id
    }
}

/// The error that is sent over the wire in an error response body.
#[derive(Debug)]
pub enum ErrorMessage {
    /// The argument could not be deserialized by the handler.
    InvalidArgument,
    /// No service of the requested name is registered.
    ServiceNotFound,
    /// The service has no method of the requested name.
    MethodNotFound,
    /// The handler itself failed, with its message.
    ExecutionError(String),
}

/// The mathematical value of a wire error message.
pub enum ErrorMessageView {
    /// The argument could not be deserialized.
    InvalidArgument,
    /// No such service.
    ServiceNotFound,
    /// No such method.
    MethodNotFound,
    /// The handler failed, with its message.
    ExecutionError(Seq<char>),
}

impl View for ErrorMessage {
    type V = ErrorMessageView;

    open spec fn view(&self) -> ErrorMessageView {
        match self {
            ErrorMessage::InvalidArgument => ErrorMessageView::InvalidArgument,
            ErrorMessage::ServiceNotFound => ErrorMessageView::ServiceNotFound,
            ErrorMessage::MethodNotFound => ErrorMessageView::MethodNotFound,
            ErrorMessage::ExecutionError(s) => ErrorMessageView::ExecutionError(s@),
        }
    }
}

/// Which local errors may travel as an `ErrorMessage`.
pub open spec fn spec_sendable(err: Error) -> bool {
    match err {
        Error::InvalidArgument => true,
        Error::ServiceNotFound => true,
        Error::MethodNotFound => true,
        Error::ExecutionError(_) => true,
        _ => false,
    }
}

/// The wire form of a sendable local error.
pub open spec fn spec_err_msg_of(err: Error) -> ErrorMessage
    recommends
        spec_sendable(err),
{
    match err {
        Error::InvalidArgument => ErrorMessage::InvalidArgument,
        Error::ServiceNotFound => ErrorMessage::ServiceNotFound,
        Error::MethodNotFound => ErrorMessage::MethodNotFound,
        Error::ExecutionError(s) => ErrorMessage::ExecutionError(s),
        _ => ErrorMessage::InvalidArgument,
    }
}

impl ErrorMessage {
    /// Converts a local error into its wire form.
    ///
    /// Only the four variants of `ErrorMessage` can travel; every other error
    /// is local by design and is handed back unchanged.
    pub fn from_err(err: Error) -> (r: Result<Self, Error>)
        ensures
            spec_sendable(err) ==> r == Result::<Self, Error>::Ok(spec_err_msg_of(err)),
            !spec_sendable(err) ==> r == Result::<Self, Error>::Err(err),
    {
        match err {
            Error::InvalidArgument => Ok(Self::InvalidArgument),
            Error::ServiceNotFound => Ok(Self::ServiceNotFound),
            Error::MethodNotFound => Ok(Self::MethodNotFound),
            Error::ExecutionError(s) => Ok(Self::ExecutionError(s)),
            e => Err(e),
        }
    }
}

/// Body of a timeout notice, carrying the deadline in milliseconds.
#[derive(Debug)]
pub struct TimeoutRequestBody(pub u64);

impl TimeoutRequestBody {
    /// Wraps a timeout, given in milliseconds.
    pub fn new(millis: u64) -> (r: Self)
        ensures
            r.0 == millis,
    {
        Self(millis)
    }
}

} // verus!
