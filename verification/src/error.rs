//! What can go wrong, and how it is told to the user.

use vstd::prelude::*;

use crate::text;

verus! {

/// A failure of a scan, a search or a save.
#[derive(Debug)]
pub enum AppError {
    Network(String),
    Mdns(String),
    Xml(String),
    Image(String),
    Escl(String),
    Multipart(String),
    Pdf(String),
    Disconnected,
    Io(String),
}

/// Result of the operations of this library.
pub type AppResult<T> = Result<T, AppError>;

/// What an `AppError` says.
pub enum ErrorModel {
    Network(Seq<char>),
    Mdns(Seq<char>),
    Xml(Seq<char>),
    Image(Seq<char>),
    Escl(Seq<char>),
    Multipart(Seq<char>),
    Pdf(Seq<char>),
    Disconnected,
    Io(Seq<char>),
}

impl View for AppError {
    type V = ErrorModel;

    open spec fn view(&self) -> ErrorModel {
        match *self {
            AppError::Network(s) => ErrorModel::Network(s@),
            AppError::Mdns(s) => ErrorModel::Mdns(s@),
            AppError::Xml(s) => ErrorModel::Xml(s@),
            AppError::Image(s) => ErrorModel::Image(s@),
            AppError::Escl(s) => ErrorModel::Escl(s@),
            AppError::Multipart(s) => ErrorModel::Multipart(s@),
            AppError::Pdf(s) => ErrorModel::Pdf(s@),
            AppError::Disconnected => ErrorModel::Disconnected,
            AppError::Io(s) => ErrorModel::Io(s@),
        }
    }
}

/// The sentence shown for a failure.
pub open spec fn error_text(e: ErrorModel) -> Seq<char> {
    match e {
        ErrorModel::Network(s) => s,
        ErrorModel::Mdns(s) => "mDNS error: "@ + s,
        ErrorModel::Xml(s) => "XML parse error: "@ + s,
        ErrorModel::Image(s) => "image decode error: "@ + s,
        ErrorModel::Escl(s) => "eSCL protocol error: "@ + s,
        ErrorModel::Multipart(s) => "multipart parse error: "@ + s,
        ErrorModel::Pdf(s) => "PDF error: "@ + s,
        ErrorModel::Disconnected => "scanner unreachable"@,
        ErrorModel::Io(s) => "I/O error: "@ + s,
    }
}

/// How a request to a scanner failed.
#[derive(Debug, Clone, Copy, PartialEq, Eq, Structural)]
pub enum RequestFailure {
    /// No answer in time.
    Timeout,
    /// No connection.
    Connect,
    /// Anything else.
    Dropped,
}

/// The sentence for a failed request.
pub open spec fn request_text(f: RequestFailure) -> Seq<char> {
    match f {
        RequestFailure::Timeout => "The scanner took too long. Try Scan again."@,
        RequestFailure::Connect => "Couldn't connect to the scanner. Try Scan again."@,
        RequestFailure::Dropped => "The scanner dropped the connection. Try Scan again."@,
    }
}

impl AppError {
    /// The sentence shown for this failure.
    pub fn message(&self) -> (r: String)
        ensures
            r@ == error_text(self@),
    {
        match self {
            AppError::Network(s) => s.clone(),
            AppError::Mdns(s) => text::joined("mDNS error: ", s.as_str()),
            AppError::Xml(s) => text::joined("XML parse error: ", s.as_str()),
            AppError::Image(s) => text::joined("image decode error: ", s.as_str()),
            AppError::Escl(s) => text::joined("eSCL protocol error: ", s.as_str()),
            AppError::Multipart(s) => text::joined("multipart parse error: ", s.as_str()),
            AppError::Pdf(s) => text::joined("PDF error: ", s.as_str()),
            AppError::Disconnected => "scanner unreachable".to_owned(),
            AppError::Io(s) => text::joined("I/O error: ", s.as_str()),
        }
    }

    /// The failure that a failed request stands for. A request that fails is never taken for a
    /// lost scanner.
    pub fn from_request(f: RequestFailure) -> (r: AppError)
        ensures
            r@ == ErrorModel::Escl(request_text(f)),
    {
        AppError::Escl(
            match f {
                RequestFailure::Timeout => "The scanner took too long. Try Scan again.".to_owned(),
                RequestFailure::Connect => "Couldn't connect to the scanner. Try Scan again.".to_owned(),
                RequestFailure::Dropped => "The scanner dropped the connection. Try Scan again.".to_owned(),
            },
        )
    }

    /// A failure of the scanner protocol.
    pub fn escl(s: &str) -> (r: AppError)
        ensures
            r@ == ErrorModel::Escl(s@),
    {
        AppError::Escl(s.to_owned())
    }
}

/// A failure is told in its own words, after what kind of failure it is.
pub proof fn failures_are_told_in_full(t: Seq<char>)
    ensures
        error_text(ErrorModel::Network(t)) == t,
        error_text(ErrorModel::Escl(t)) == "eSCL protocol error: "@ + t,
        error_text(ErrorModel::Pdf(t)) == "PDF error: "@ + t,
        error_text(ErrorModel::Image(t)) == "image decode error: "@ + t,
        error_text(ErrorModel::Xml(t)) == "XML parse error: "@ + t,
        error_text(ErrorModel::Io(t)) == "I/O error: "@ + t,
        error_text(ErrorModel::Mdns(t)) == "mDNS error: "@ + t,
        error_text(ErrorModel::Multipart(t)) == "multipart parse error: "@ + t,
        error_text(ErrorModel::Disconnected) == "scanner unreachable"@,
{
}

/// A request that failed is told by why: that it took too long, that no connection came about, or
/// that the connection was lost.
pub proof fn failed_requests_are_told_apart(f: RequestFailure)
    ensures
        f is Timeout ==> request_text(f) == "The scanner took too long. Try Scan again."@,
        f is Connect ==> request_text(f) == "Couldn't connect to the scanner. Try Scan again."@,
        f is Dropped ==> request_text(f) == "The scanner dropped the connection. Try Scan again."@,
{
}

} // verus!
