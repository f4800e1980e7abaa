//! The error taxonomy of content resolution.

use vstd::prelude::*;
use vstd::string::StringExecFns;

verus! {

/// Errors that can occur during content resolution.
///
/// `NotFound` is soft at the resolver level: it makes resolution continue
/// with the next source. Every other kind is remembered and surfaces only
/// when no later source succeeds.
#[derive(Debug)]
pub enum ContentError {
    /// The backend has no entry at the requested path.
    NotFound { path: String },
    /// A transport-level failure while talking to a remote backend.
    Network { message: String },
    /// The remote service rejected the request for quota or auth reasons.
    RateLimited { message: String },
    /// The backend answered, but the answer was malformed.
    InvalidStructure { message: String },
    /// A local input/output failure.
    Io { message: String },
    /// A cache store fault, distinct from a plain miss.
    Cache { message: String },
    /// Construction-time misconfiguration.
    InvalidConfig { message: String },
    /// A payload could not be encoded or decoded.
    Serialization { message: String },
}

/// Mathematical model of a [`ContentError`].
pub enum ContentErrorView {
    NotFound { path: Seq<char> },
    Network { message: Seq<char> },
    RateLimited { message: Seq<char> },
    InvalidStructure { message: Seq<char> },
    Io { message: Seq<char> },
    Cache { message: Seq<char> },
    InvalidConfig { message: Seq<char> },
    Serialization { message: Seq<char> },
}

impl View for ContentError {
    type V = ContentErrorView;

    open spec fn view(&self) -> ContentErrorView {
        match self {
            ContentError::NotFound { path } => ContentErrorView::NotFound { path: path@ },
            ContentError::Network { message } => ContentErrorView::Network { message: message@ },
            ContentError::RateLimited { message } => ContentErrorView::RateLimited {
                message: message@,
            },
            ContentError::InvalidStructure { message } => ContentErrorView::InvalidStructure {
                message: message@,
            },
            ContentError::Io { message } => ContentErrorView::Io { message: message@ },
            ContentError::Cache { message } => ContentErrorView::Cache { message: message@ },
            ContentError::InvalidConfig { message } => ContentErrorView::InvalidConfig {
                message: message@,
            },
            ContentError::Serialization { message } => ContentErrorView::Serialization {
                message: message@,
            },
        }
    }
}

/// The description of an error: its kind and, where one applies, the
/// requested path or the underlying message.
pub open spec fn describe_spec(e: ContentErrorView) -> Seq<char> {
    match e {
        ContentErrorView::NotFound { path } => "Content not found: "@ + path,
        ContentErrorView::Network { message } => "Network error: "@ + message,
        ContentErrorView::RateLimited { message } => "Rate limited by remote service: "@
            + message,
        ContentErrorView::InvalidStructure { message } => "Invalid remote structure: "@ + message,
        ContentErrorView::Io { message } => "IO error: "@ + message,
        ContentErrorView::Cache { message } => "Cache error: "@ + message,
        ContentErrorView::InvalidConfig { message } => "Invalid configuration: "@ + message,
        ContentErrorView::Serialization { message } => "Serialization error: "@ + message,
    }
}

impl ContentError {
    /// A human-readable description naming the error's kind and detail.
    pub fn describe(&self) -> (r: String)
        ensures
            r@ == describe_spec(self@),
    {
        let (head, tail): (&str, &str) = match self {
            ContentError::NotFound { path } => ("Content not found: ", path.as_str()),
            ContentError::Network { message } => ("Network error: ", message.as_str()),
            ContentError::RateLimited { message } => (
                "Rate limited by remote service: ",
                message.as_str(),
            ),
            ContentError::InvalidStructure { message } => (
                "Invalid remote structure: ",
                message.as_str(),
            ),
            ContentError::Io { message } => ("IO error: ", message.as_str()),
            ContentError::Cache { message } => ("Cache error: ", message.as_str()),
            ContentError::InvalidConfig { message } => (
                "Invalid configuration: ",
                message.as_str(),
            ),
            ContentError::Serialization { message } => (
                "Serialization error: ",
                message.as_str(),
            ),
        };
        let mut s = head.to_owned();
        s.append(tail);
        s
    }

    /// True exactly on the soft error kind that fallback resolution skips.
    pub fn is_not_found(&self) -> (r: bool)
        ensures
            r == (self@ is NotFound),
    {
        match self {
            ContentError::NotFound { .. } => true,
            _ => false,
        }
    }

    /// An equal error value; the fields are copied as they stand.
    pub fn duplicate(&self) -> (r: ContentError)
        ensures
            r@ == self@,
    {
        match self {
            ContentError::NotFound { path } => ContentError::NotFound { path: path.clone() },
            ContentError::Network { message } => ContentError::Network {
                message: message.clone(),
            },
            ContentError::RateLimited { message } => ContentError::RateLimited {
                message: message.clone(),
            },
            ContentError::InvalidStructure { message } => ContentError::InvalidStructure {
                message: message.clone(),
            },
            ContentError::Io { message } => ContentError::Io { message: message.clone() },
            ContentError::Cache { message } => ContentError::Cache { message: message.clone() },
            ContentError::InvalidConfig { message } => ContentError::InvalidConfig {
                message: message.clone(),
            },
            ContentError::Serialization { message } => ContentError::Serialization {
                message: message.clone(),
            },
        }
    }
}

/// The view of a fetch result, with both payload and error replaced by
/// their mathematical models.
pub open spec fn result_view<T: View>(r: Result<T, ContentError>) -> Result<T::V, ContentErrorView> {
    match r {
        Ok(v) => Ok(v@),
        Err(e) => Err(e@),
    }
}

} // verus!
