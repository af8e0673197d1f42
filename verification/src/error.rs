//! The error taxonomy shared by the client and the server.

use vstd::prelude::*;

use crate::message::{ErrorMessage, MessageId};

verus! {

/// Everything that an RPC operation can fail with.
///
/// `IoError`, `ParseError` and `Internal` carry a human-readable message in
/// place of the source error value, which lives outside this crate.
#[derive(Debug)]
pub enum Error {
    /// Errors with IO including those from the transport layer.
    IoError(String),
    /// Errors with serialization or deserialization.
    ParseError(String),
    /// Errors internal to the server or the client.
    Internal(String),
    /// The supplied argument for the call is invalid.
    InvalidArgument,
    /// The specified service is not found on the server side.
    ServiceNotFound,
    /// The specified method is not found on the specified service.
    MethodNotFound,
    /// Execution error returned by the RPC method.
    ExecutionError(String),
    /// The RPC call was cancelled, locally or by a cancellation frame.
    Canceled(Option<MessageId>),
    /// The RPC call reached its deadline.
    ///
    /// The timeout is tracked independently on the client and the server, so
    /// a response that arrives at the moment of expiry still times out.
    Timeout(Option<MessageId>),
}

/// The mathematical value of an error.
pub enum ErrorView {
    /// An IO error, with its message.
    IoError(Seq<char>),
    /// A serialization error, with its message.
    ParseError(Seq<char>),
    /// An internal error, with its message.
    Internal(Seq<char>),
    /// The supplied argument is invalid.
    InvalidArgument,
    /// No such service.
    ServiceNotFound,
    /// No such method.
    MethodNotFound,
    /// The handler failed, with its message.
    ExecutionError(Seq<char>),
    /// The call was cancelled.
    Canceled(Option<MessageId>),
    /// The call reached its deadline.
    Timeout(Option<MessageId>),
}

impl View for Error {
    type V = ErrorView;

    open spec fn view(&self) -> ErrorView {
        match self {
            Error::IoError(s) => ErrorView::IoError(s@),
            Error::ParseError(s) => ErrorView::ParseError(s@),
            Error::Internal(s) => ErrorView::Internal(s@),
            Error::InvalidArgument => ErrorView::InvalidArgument,
            Error::ServiceNotFound => ErrorView::ServiceNotFound,
            Error::MethodNotFound => ErrorView::MethodNotFound,
            Error::ExecutionError(s) => ErrorView::ExecutionError(s@),
            Error::Canceled(id) => ErrorView::Canceled(*id),
            Error::Timeout(id) => ErrorView::Timeout(*id),
        }
    }
}

/// What error a wire-level error message stands for, on views.
pub open spec fn spec_err_view_of_msg(m: crate::message::ErrorMessageView) -> ErrorView {
    match m {
        crate::message::ErrorMessageView::InvalidArgument => ErrorView::InvalidArgument,
        crate::message::ErrorMessageView::ServiceNotFound => ErrorView::ServiceNotFound,
        crate::message::ErrorMessageView::MethodNotFound => ErrorView::MethodNotFound,
        crate::message::ErrorMessageView::ExecutionError(s) => ErrorView::ExecutionError(s),
    }
}

/// What `Error` value a wire-level `ErrorMessage` stands for.
pub open spec fn spec_from_err_msg(msg: ErrorMessage) -> Error {
    match msg {
        ErrorMessage::InvalidArgument => Error::InvalidArgument,
        ErrorMessage::ServiceNotFound => Error::ServiceNotFound,
        ErrorMessage::MethodNotFound => Error::MethodNotFound,
        ErrorMessage::ExecutionError(s) => Error::ExecutionError(s),
    }
}

impl Error {
    /// Converts an error received over the wire into the local taxonomy.
    pub fn from_err_msg(msg: ErrorMessage) -> (r: Self)
        ensures
            r == spec_from_err_msg(msg),
            r@ == spec_err_view_of_msg(msg@),
    {
        match msg {
            ErrorMessage::InvalidArgument => Self::InvalidArgument,
            ErrorMessage::ServiceNotFound => Self::ServiceNotFound,
            ErrorMessage::MethodNotFound => Self::MethodNotFound,
            ErrorMessage::ExecutionError(s) => Self::ExecutionError(s),
        }
    }
}

} // verus!
