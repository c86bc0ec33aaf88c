//! The messages exchanged with nodes and triggers, as plain values, and the
//! name directory. Turning bytes into these values is the caller's part; the
//! functions here say what a reply amounts to once that has been tried.

pub mod network;

use crate::http::common::{optional_bytes, HttpResponse};
use crate::text::with_error_text;
use vstd::prelude::*;

verus! {

/// A trigger's request to set a node's state.
#[derive(Clone, Debug, PartialEq, Eq)]
pub struct UpdateNodeStateRequest {
    pub node: String,
    pub new_state: u8,
}

/// A node's answer to a state change: its verdict, the state it had and
/// the state it has.
#[derive(Clone, Debug, PartialEq, Eq)]
pub struct UpdateNodeStateResponse {
    pub result: String,
    pub old_state: u8,
    pub new_state: u8,
}

/// A node's answer to a state query.
#[derive(Clone, Copy, Debug, PartialEq, Eq, Structural)]
pub struct GetNodeStateResponse {
    pub state: u8,
}

/// A state request with its text as characters.
pub struct UpdateRequestView {
    pub node: Seq<char>,
    pub new_state: u8,
}

/// A node's answer with its text as characters.
pub struct UpdateResponseView {
    pub result: Seq<char>,
    pub old_state: u8,
    pub new_state: u8,
}

impl View for UpdateNodeStateRequest {
    type V = UpdateRequestView;

    open spec fn view(&self) -> UpdateRequestView {
        UpdateRequestView { node: self.node@, new_state: self.new_state }
    }
}

impl View for UpdateNodeStateResponse {
    type V = UpdateResponseView;

    open spec fn view(&self) -> UpdateResponseView {
        UpdateResponseView {
            result: self.result@,
            old_state: self.old_state,
            new_state: self.new_state,
        }
    }
}

/// What a reply's body amounts to: an error if there is no body or if
/// decoding it failed, else the decoded value.
pub open spec fn body_decoded<T>(body: Option<Seq<u8>>, decoded: Option<T>) -> Result<T, Seq<char>> {
    match body {
        None => Err("No response body returned"@),
        Some(_) => match decoded {
            None => Err("Unable to parse response"@),
            Some(value) => Ok(value),
        },
    }
}

/// An optional update response as its view.
pub open spec fn optional_update(decoded: Option<UpdateNodeStateResponse>) -> Option<
    UpdateResponseView,
> {
    match decoded {
        Some(response) => Some(response@),
        None => None,
    }
}

/// The result of reading an update response, with text as characters.
pub open spec fn update_result_view(result: Result<UpdateNodeStateResponse, &'static str>) -> Result<
    UpdateResponseView,
    Seq<char>,
> {
    match result {
        Ok(response) => Ok(response@),
        Err(reason) => Err(reason@),
    }
}

impl UpdateNodeStateResponse {
    /// The update response carried by `response`, where `decoded` is what
    /// decoding the body gave (`None` if it could not be decoded).
    pub fn from_http_response(
        response: HttpResponse,
        decoded: Option<UpdateNodeStateResponse>,
    ) -> (result: Result<UpdateNodeStateResponse, &'static str>)
        ensures
            update_result_view(result) == body_decoded(
                optional_bytes(response.body),
                optional_update(decoded),
            ),
    {
        match response.body {
            None => Err("No response body returned"),
            Some(_) => match decoded {
                Some(update) => Ok(update),
                None => Err("Unable to parse response"),
            },
        }
    }
}

/// The result of a request for a node's state, where `response` is what the
/// request returned and `decoded` what decoding its body gave.
pub open spec fn state_reply(
    response: Result<Option<Seq<u8>>, Seq<char>>,
    decoded: Option<GetNodeStateResponse>,
) -> Result<GetNodeStateResponse, Seq<char>> {
    match response {
        Err(reason) => Err(reason),
        Ok(body) => body_decoded(body, decoded),
    }
}

/// The body of a reply, or the reason there is no reply.
pub open spec fn reply_body(response: Result<HttpResponse, &'static str>) -> Result<
    Option<Seq<u8>>,
    Seq<char>,
> {
    match response {
        Ok(r) => Ok(optional_bytes(r.body)),
        Err(reason) => Err(reason@),
    }
}

/// Reads a node's state from the reply to a state request.
pub fn get_state(
    response: Result<HttpResponse, &'static str>,
    decoded: Option<GetNodeStateResponse>,
) -> (result: Result<GetNodeStateResponse, &'static str>)
    ensures
        with_error_text(result) == state_reply(reply_body(response), decoded),
{
    match response {
        Err(reason) => Err(reason),
        Ok(reply) => match reply.body {
            None => Err("No response body returned"),
            Some(_) => match decoded {
                Some(state) => Ok(state),
                None => Err("Unable to parse response"),
            },
        },
    }
}

} // verus!
