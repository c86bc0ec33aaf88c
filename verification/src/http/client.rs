//! The client side of a call to a node: what is sent, and what the call
//! amounts to for each way the transport can go.

use crate::http::common::{
    body_length, message_headers, HttpRequest, HttpResponse, HttpVerb, RequestHeaderView,
    RequestView,
};
use crate::text_map::TextMap;
use vstd::prelude::*;

verus! {

/// A client for one node, known by its address.
#[derive(Clone, Debug, PartialEq, Eq)]
pub struct HttpClient {
    address: String,
}

/// What a call returned, or why it returned nothing, with text as characters
/// and the response as its view.
pub open spec fn response_result(result: Result<HttpResponse, &'static str>) -> Result<
    crate::http::common::ResponseView,
    Seq<char>,
> {
    match result {
        Ok(response) => Ok(response@),
        Err(reason) => Err(reason@),
    }
}

/// The result of a GET: a refused connection and a failed write each have
/// their own error; otherwise it is what reading the reply gave.
pub open spec fn get_outcome(
    connected: bool,
    written: bool,
    reply: Result<crate::http::common::ResponseView, Seq<char>>,
) -> Result<crate::http::common::ResponseView, Seq<char>> {
    if !connected {
        Err("Could not connect to server."@)
    } else if !written {
        Err("Could not connect to server, GET request failed."@)
    } else {
        reply
    }
}

impl HttpClient {
    /// The address that this client calls.
    pub closed spec fn target(&self) -> Seq<char> {
        self.address@
    }

    /// A client for the node at `address`.
    pub fn create(address: String) -> (client: HttpClient)
        ensures
            client.target() == address@,
    {
        HttpClient { address }
    }

    /// The address that this client calls.
    pub fn address(&self) -> (address: &String)
        ensures
            address@ == self.target(),
    {
        &self.address
    }

    /// The request that a GET of `route` sends: no body, the standard
    /// headers, and the additional ones.
    pub fn get_request(
        &self,
        route: String,
        content_type: String,
        addition_header: TextMap,
    ) -> (request: HttpRequest)
        ensures
            request@ == (RequestView {
                header: RequestHeaderView {
                    route: route@,
                    verb: HttpVerb::GET,
                    content_length: 0,
                    headers: message_headers(content_type@, 0, addition_header.entries()),
                    http_version: "HTTP/1.1"@,
                },
                body: None,
            }),
    {
        HttpRequest::create(route, HttpVerb::GET, content_type, addition_header, None)
    }

    /// What a GET returns, given how the transport went: whether the
    /// connection was made, whether the request was written, and what
    /// reading the reply gave.
    pub fn get_result(
        connected: bool,
        written: bool,
        reply: Result<HttpResponse, &'static str>,
    ) -> (result: Result<HttpResponse, &'static str>)
        ensures
            response_result(result) == get_outcome(connected, written, response_result(reply)),
    {
        if !connected {
            Err("Could not connect to server.")
        } else if !written {
            Err("Could not connect to server, GET request failed.")
        } else {
            reply
        }
    }
}

} // verus!
