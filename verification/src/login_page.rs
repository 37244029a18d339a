//! The decisions of the browser client: what the login page does with its
//! messages, and where the live updates come from.
use vstd::prelude::*;
use vstd::string::*;
use crate::api_types::{ApiResponse, LoginResponse, ServerError};

verus! {

/// A message to the login page.
pub enum Message {
    /// The form was submitted.
    RequestLogin,
    /// The server answered the login request.
    LoginResultReceived(ApiResponse<LoginResponse, String>),
}

/// What the login page does.
pub enum LoginAction {
    /// Post the entered user name and password to `/api/login`.
    SendLogin,
    /// Hand the new session id to whoever waits for the login.
    LoggedIn(String),
    /// Report an error of the server.
    ReportServerError(ServerError),
    /// Report that the request was refused, with the reason given.
    ReportRefusal(String),
}

/// The path that login requests are posted to.
pub const LOGIN_PATH: &'static str = "/api/login";

/// What the login page does with `msg`.
pub fn update(msg: Message) -> (r: LoginAction)
    ensures
        match msg {
            Message::RequestLogin => r is SendLogin,
            Message::LoginResultReceived(ApiResponse::Success(resp)) => r == LoginAction::LoggedIn(resp.session_id),
            Message::LoginResultReceived(ApiResponse::ServerError(e)) => r == LoginAction::ReportServerError(e),
            Message::LoginResultReceived(ApiResponse::ClientError(e)) => r == LoginAction::ReportRefusal(e),
        },
{
    match msg {
        Message::RequestLogin => LoginAction::SendLogin,
        Message::LoginResultReceived(response) => match response {
            ApiResponse::Success(LoginResponse { session_id }) => LoginAction::LoggedIn(session_id),
            ApiResponse::ServerError(e) => LoginAction::ReportServerError(e),
            ApiResponse::ClientError(e) => LoginAction::ReportRefusal(e),
        },
    }
}

/// The address of the websocket with live updates, for a page served from
/// `host`: `wss` when the page came over https, else `ws`.
pub fn socket_url(host: &str, secure: bool) -> (r: String)
    ensures
        r@ == (if secure { "wss"@ } else { "ws"@ }) + "://"@ + host@ + "/api/ws"@,
{
    let scheme = if secure { String::from_str("wss") } else { String::from_str("ws") };
    scheme.concat("://").concat(host).concat("/api/ws")
}

} // verus!
