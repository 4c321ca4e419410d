use vstd::prelude::*;

verus! {

/// Every way in which a transaction with the adapter can fail.
#[derive(Debug, Clone, PartialEq, Eq)]
pub enum DAError {
    /// The connection failed to send the request or to yield a reply.
    CommunicationError,
    /// An inbound message could not be read as structured data.
    ConversionError,
    /// The adapter rejected a write; the text carries its detail.
    SetValueError(String),
    /// A requested path does not resolve in the response.
    NoSuchFieldError,
    /// An extracted value does not have the requested scalar shape.
    ValueConversionError,
    /// The adapter's address does not form a valid URL.
    UrlParseError,
    /// The websocket connection could not be opened.
    WebSocketError,
    /// The reply does not echo the correlation id or origin of the request.
    ProtocolCorrelationError,
}

} // verus!
