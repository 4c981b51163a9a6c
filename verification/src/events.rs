//! The typed protocol events that a generation produces, and the errors a
//! generation can end in.

use vstd::prelude::*;

use crate::session::{ResponseChatMessage, ResponseMessageView};

verus! {

use vstd::string::StringExecFns;

/// Why a generation ended without a committed message.
#[derive(Debug)]
pub enum GenerateError {
    /// The connection could not be made or broke mid-stream.
    TransportFailure(String),
    /// A frame could not be decoded.
    DecodeFailure(String),
    /// The backend reported a structured error.
    ServerReportedError(String),
    /// The stream ended without any content.
    EmptyResultError,
}

/// The mathematical value of a [`GenerateError`].
pub enum GenerateErrorView {
    TransportFailure(Seq<char>),
    DecodeFailure(Seq<char>),
    ServerReportedError(Seq<char>),
    EmptyResultError,
}

impl View for GenerateError {
    type V = GenerateErrorView;

    open spec fn view(&self) -> GenerateErrorView {
        match self {
            GenerateError::TransportFailure(m) => GenerateErrorView::TransportFailure(m@),
            GenerateError::DecodeFailure(m) => GenerateErrorView::DecodeFailure(m@),
            GenerateError::ServerReportedError(m) => GenerateErrorView::ServerReportedError(m@),
            GenerateError::EmptyResultError => GenerateErrorView::EmptyResultError,
        }
    }
}

impl GenerateError {
    /// The text shown for this error.
    pub open spec fn spec_message(self) -> Seq<char> {
        match self@ {
            GenerateErrorView::TransportFailure(m) => m,
            GenerateErrorView::DecodeFailure(m) => m,
            GenerateErrorView::ServerReportedError(m) => m,
            GenerateErrorView::EmptyResultError => "content is empty"@,
        }
    }

    /// The text shown for this error, executable.
    pub fn message(&self) -> (r: String)
        ensures
            r@ == self.spec_message(),
    {
        match self {
            GenerateError::TransportFailure(m) => m.clone(),
            GenerateError::DecodeFailure(m) => m.clone(),
            GenerateError::ServerReportedError(m) => m.clone(),
            GenerateError::EmptyResultError => String::from_str("content is empty"),
        }
    }
}

impl Clone for GenerateError {
    fn clone(&self) -> (r: Self)
        ensures
            r@ == self@,
    {
        match self {
            GenerateError::TransportFailure(m) => GenerateError::TransportFailure(m.clone()),
            GenerateError::DecodeFailure(m) => GenerateError::DecodeFailure(m.clone()),
            GenerateError::ServerReportedError(m) => GenerateError::ServerReportedError(
                m.clone(),
            ),
            GenerateError::EmptyResultError => GenerateError::EmptyResultError,
        }
    }
}

/// A structured error as the backend reports it.
#[derive(Debug)]
pub struct ServerError {
    pub message: String,
    pub error_type: String,
    pub param: Option<String>,
    pub code: Option<String>,
}

/// The mathematical value of a [`ServerError`].
pub struct ServerErrorView {
    pub message: Seq<char>,
    pub error_type: Seq<char>,
    pub param: Option<Seq<char>>,
    pub code: Option<Seq<char>>,
}

impl View for ServerError {
    type V = ServerErrorView;

    open spec fn view(&self) -> ServerErrorView {
        ServerErrorView {
            message: self.message@,
            error_type: self.error_type@,
            param: match self.param {
                Some(ref p) => Some(p@),
                None => None,
            },
            code: match self.code {
                Some(ref c) => Some(c@),
                None => None,
            },
        }
    }
}

/// One decoded wire unit: a delta fragment, the end-of-stream sentinel, a
/// server-reported structured error, or a decode or transport failure.
#[derive(Debug)]
pub enum ProtocolEvent {
    Delta(ResponseChatMessage),
    Done,
    ServerError(ServerError),
    Failure(GenerateError),
}

/// The mathematical value of a [`ProtocolEvent`].
pub enum ProtocolEventView {
    Delta(ResponseMessageView),
    Done,
    ServerError(ServerErrorView),
    Failure(GenerateErrorView),
}

impl View for ProtocolEvent {
    type V = ProtocolEventView;

    open spec fn view(&self) -> ProtocolEventView {
        match self {
            ProtocolEvent::Delta(m) => ProtocolEventView::Delta(m@),
            ProtocolEvent::Done => ProtocolEventView::Done,
            ProtocolEvent::ServerError(e) => ProtocolEventView::ServerError(e@),
            ProtocolEvent::Failure(e) => ProtocolEventView::Failure(e@),
        }
    }
}

} // verus!
