//! Types that the API sends, shared by the server and its clients.
use vstd::prelude::*;
use crate::state::Timestamp;
use crate::state::AttributeValue;

verus! {

/// A response sent by the API.
#[derive(Debug, PartialEq)]
pub enum ApiResponse<V, E> {
    /// The request was handled successfully.
    Success(V),
    /// Some error occurred on the server while processing the request.
    ServerError(ServerError),
    /// The client did something wrong.
    ClientError(E),
}

/// An error that happened on the server.
#[derive(Debug, PartialEq)]
pub struct ServerError {
    /// The id of the error.
    pub id: String,
    /// The error message.
    pub message: String,
}

/// Requests the history of an attribute.
#[derive(Debug, PartialEq)]
pub struct AttributeHistoryRequest {
    /// The element whose attribute history is requested.
    pub element_id: String,
    /// The attribute whose history is requested.
    pub attribute_id: String,
}

/// One entry of an attribute's history.
#[derive(Debug, PartialEq)]
pub struct AttributeHistoryElement {
    /// When the change was recorded.
    pub timestamp: Timestamp,
    /// The new value; `None` records that the attribute was deleted.
    pub new_value: Option<AttributeValue>,
}

/// Requests the online-state history of an element.
#[derive(Debug, PartialEq)]
pub struct OnlineStateHistoryRequest {
    /// The element whose online-state history is requested.
    pub element_id: String,
}

/// One entry of an element's online-state history.
#[derive(Clone, Copy, Debug, PartialEq, Eq)]
pub struct OnlineStateHistoryElement {
    /// When the change was recorded.
    pub timestamp: Timestamp,
    /// The new online state.
    pub new_state: bool,
}

/// A request to log in.
#[derive(Debug, PartialEq)]
pub struct LoginRequest {
    /// The user's name.
    pub username: String,
    /// The user's password.
    pub password: String,
}

/// The answer to a successful login.
#[derive(Debug, PartialEq)]
pub struct LoginResponse {
    /// The id of the new session.
    pub session_id: String,
}

} // verus!
