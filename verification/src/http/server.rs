//! The routes of the trigger interface. A route that needs the directory or
//! a node is cut into steps, each taking what the previous request brought.

use crate::channel::{deliver_all, flow_after, flow_of, Flow};
use crate::logging::logger::Logger;
use std::sync::mpsc::Sender;
use crate::common::{
    fresh_id, ChangeNodeStateCommand, Command, CommandType, Event, EventView, WorkPayload, WorkView,
};
use crate::http::common::{
    message_headers, HttpRequest, HttpResponse, HttpStatus, HttpVerb, ResponseHeaderView,
    ResponseView,
};
use crate::io::{GetNodeStateResponse, UpdateNodeStateRequest, UpdateRequestView};
use crate::orchestrating::action_handler::{OutboundCall, OutboundCallView};
use crate::text::{copy_range, from_chars, last_segment, last_segment_of, same_text, starts_with, to_chars};
use crate::text_map::TextMap;
use uuid::Uuid;
use vstd::prelude::*;
use vstd::string::{StrSliceExecFns, StringExecFns};
use vstd::utf8::encode_utf8;

verus! {

/// What a route answers and what it feeds into the ring.
#[derive(Debug, PartialEq, Eq)]
pub struct RouteResult {
    pub response: HttpResponse,
    pub events: Vec<Event>,
    pub commands: Vec<Command>,
}

/// A route's result with its parts as views.
pub struct RouteResultView {
    pub response: ResponseView,
    pub events: Seq<EventView>,
    pub commands: Seq<WorkView>,
}

impl View for RouteResult {
    type V = RouteResultView;

    open spec fn view(&self) -> RouteResultView {
        RouteResultView {
            response: self.response@,
            events: crate::common::event_views(self.events@),
            commands: crate::common::command_views(self.commands@),
        }
    }
}

/// The route that a request line selects.
#[derive(Clone, Copy, Debug, PartialEq, Eq, Structural)]
pub enum Route {
    SetState,
    GetState,
    NotFound,
}

/// Where the router stands after looking at a request.
#[derive(Debug, PartialEq, Eq)]
pub enum RouterStep {
    /// The request is answered.
    Finished(RouteResult),
    /// The address of the named node has to be looked up.
    Resolve(String),
}

/// Where a state query stands once the lookup has answered.
#[derive(Debug, PartialEq, Eq)]
pub enum GetStateStep {
    /// The node is unknown; the request is answered.
    Finished(RouteResult),
    /// The node has to be asked for its state.
    Fetch(OutboundCall),
}

/// A response with `body` as its content.
pub open spec fn response_with(status: HttpStatus, content_type: Seq<char>, body: Seq<u8>) -> ResponseView {
    ResponseView {
        header: ResponseHeaderView {
            http_version: "HTTP/1.1"@,
            status,
            content_length: body.len(),
            headers: message_headers(content_type, body.len(), Seq::empty()),
        },
        body: Some(body),
    }
}

/// A plain-text response that says `text`.
pub open spec fn text_response(status: HttpStatus, text: Seq<char>) -> ResponseView {
    response_with(status, "text/plain"@, encode_utf8(text))
}

/// An answer that feeds nothing into the ring.
pub open spec fn answer_only(response: ResponseView) -> RouteResultView {
    RouteResultView { response, events: Seq::empty(), commands: Seq::empty() }
}

/// The route for a path and a verb.
pub open spec fn route_of(path: Seq<char>, verb: HttpVerb) -> Route {
    if path == "/node/set-state"@ && verb == HttpVerb::POST {
        Route::SetState
    } else if verb == HttpVerb::GET && "/node/get-state"@.is_prefix_of(path) {
        Route::GetState
    } else {
        Route::NotFound
    }
}

/// The command that a state request asks for.
pub open spec fn change_command(command_id: Uuid, request: UpdateRequestView) -> WorkView {
    WorkView {
        id: command_id,
        payload: WorkPayload::ChangeNodeState { node: request.node, new_state: request.new_state },
    }
}

/// The answer to a request to set a node's state, where `decoded` is what
/// decoding the body gave.
pub open spec fn set_state_answer(
    body: Option<Seq<u8>>,
    decoded: Option<UpdateRequestView>,
    command_id: Uuid,
) -> RouteResultView {
    match body {
        None => answer_only(text_response(HttpStatus::BadRequest, "Missing request body."@)),
        Some(_) => match decoded {
            Some(request) => RouteResultView {
                response: text_response(HttpStatus::OK, "Update state action queued."@),
                events: Seq::empty(),
                commands: seq![change_command(command_id, request)],
            },
            None => answer_only(text_response(HttpStatus::BadRequest, "Invalid request."@)),
        },
    }
}

/// The answer to a request that no route takes.
pub open spec fn not_found_answer() -> RouteResultView {
    answer_only(text_response(HttpStatus::NotFound, "Not found"@))
}

/// The answer to a state query for a node that the directory does not hold.
pub open spec fn unknown_node_answer() -> RouteResultView {
    answer_only(text_response(HttpStatus::NotFound, "Node not found."@))
}

/// The call that asks the node at `address` for its state.
pub open spec fn state_call(address: Seq<char>) -> OutboundCallView {
    OutboundCallView { address, route: "/get-state"@, content_type: "text/plain"@ }
}

/// The answer to a state query once the node has been asked: `state` is what
/// the node reported, `encoded` the report's encoding for the wire.
pub open spec fn state_answer(
    state: Result<GetNodeStateResponse, Seq<char>>,
    encoded: Option<Seq<u8>>,
) -> RouteResultView {
    match state {
        Ok(_) => match encoded {
            Some(body) => answer_only(response_with(HttpStatus::OK, "application/json"@, body)),
            None => answer_only(
                text_response(HttpStatus::InternalError, "Could not serialize result."@),
            ),
        },
        Err(_) => answer_only(text_response(HttpStatus::InternalError, "Could not get state."@)),
    }
}

/// An optional request for a state change as its view.
pub open spec fn optional_request(decoded: Option<UpdateNodeStateRequest>) -> Option<
    UpdateRequestView,
> {
    match decoded {
        Some(request) => Some(request@),
        None => None,
    }
}

fn answer(status: HttpStatus, content_type: &str, body: Vec<u8>) -> (result: RouteResult)
    ensures
        result@ == answer_only(response_with(status, content_type@, body@)),
{
    let response = HttpResponse::create(
        status,
        String::from_str(content_type),
        TextMap::new(),
        Some(body),
    );
    let events: Vec<Event> = Vec::new();
    let commands: Vec<Command> = Vec::new();
    assert(crate::common::event_views(events@) =~= Seq::empty());
    assert(crate::common::command_views(commands@) =~= Seq::empty());
    RouteResult { response, events, commands }
}

fn say(status: HttpStatus, text: &str) -> (result: RouteResult)
    ensures
        result@ == answer_only(text_response(status, text@)),
{
    answer(status, "text/plain", text.as_bytes_vec())
}

/// The route that takes a request with this path and verb.
pub fn select_route(path: &str, verb: HttpVerb) -> (route: Route)
    ensures
        route == route_of(path@, verb),
{
    let posts = match verb {
        HttpVerb::POST => true,
        _ => false,
    };
    let gets = match verb {
        HttpVerb::GET => true,
        _ => false,
    };
    if posts && same_text(path, "/node/set-state") {
        Route::SetState
    } else if gets && starts_with(path, "/node/get-state") {
        Route::GetState
    } else {
        Route::NotFound
    }
}

/// Answers a request to set a node's state and queues the command under
/// `command_id`.
pub fn set_state_route_with(
    request: HttpRequest,
    decoded: Option<UpdateNodeStateRequest>,
    command_id: Uuid,
) -> (result: RouteResult)
    ensures
        result@ == set_state_answer(request@.body, optional_request(decoded), command_id),
{
    match request.body {
        None => say(HttpStatus::BadRequest, "Missing request body."),
        Some(_) => match decoded {
            Some(parsed) => {
                let response = HttpResponse::create(
                    HttpStatus::OK,
                    String::from_str("text/plain"),
                    TextMap::new(),
                    Some("Update state action queued.".as_bytes_vec()),
                );
                let events: Vec<Event> = Vec::new();
                let ghost wanted = change_command(command_id, parsed@);
                let mut commands: Vec<Command> = Vec::new();
                commands.push(
                    Command {
                        id: command_id,
                        command_type: CommandType::ChangeNodeState(
                            ChangeNodeStateCommand {
                                node: parsed.node,
                                new_state: parsed.new_state,
                            },
                        ),
                    },
                );
                assert(crate::common::event_views(events@) =~= Seq::empty());
                assert(crate::common::command_views(commands@) =~= seq![wanted]);
                RouteResult { response, events, commands }
            },
            None => say(HttpStatus::BadRequest, "Invalid request."),
        },
    }
}

/// Answers a request to set a node's state. A body that decodes is answered
/// with 200 and queues exactly one command, under a new id; a missing or
/// undecodable body is answered with 400 and queues nothing.
pub fn set_state_route(request: HttpRequest, decoded: Option<UpdateNodeStateRequest>) -> (result:
    RouteResult)
    ensures
        exists|command_id: Uuid| result@ == #[trigger] set_state_answer(
            request@.body,
            optional_request(decoded),
            command_id,
        ),
{
    if request.body.is_some() && decoded.is_some() {
        let command_id = fresh_id();
        let ghost body = request@.body;
        let result = set_state_route_with(request, decoded, command_id);
        assert(result@ == set_state_answer(body, optional_request(decoded), command_id));
        result
    } else {
        let ghost unused: Uuid = arbitrary();
        let result = match request.body {
            None => say(HttpStatus::BadRequest, "Missing request body."),
            Some(_) => say(HttpStatus::BadRequest, "Invalid request."),
        };
        assert(result@ == set_state_answer(request@.body, optional_request(decoded), unused));
        result
    }
}

/// The node that a state query names: the last segment of its path.
pub fn get_state_route(request: &HttpRequest) -> (name: String)
    ensures
        name@ == last_segment(request@.header.route, '/'),
{
    last_segment_of(request.header.route.as_str(), '/')
}

/// The step after the lookup for a state query: 404 for an unknown node,
/// else the call to send to the node.
pub fn get_state_resolved(address: Option<String>) -> (step: GetStateStep)
    ensures
        match step {
            GetStateStep::Finished(result) => address is None && result@ == unknown_node_answer(),
            GetStateStep::Fetch(call) => address matches Some(a) && call@ == state_call(a@),
        },
{
    match address {
        None => GetStateStep::Finished(say(HttpStatus::NotFound, "Node not found.")),
        Some(address) => GetStateStep::Fetch(
            OutboundCall {
                address,
                route: String::from_str("/get-state"),
                content_type: String::from_str("text/plain"),
            },
        ),
    }
}

/// The answer to a state query once the node has been asked.
pub fn get_state_fetched(
    state: Result<GetNodeStateResponse, &'static str>,
    encoded: Option<Vec<u8>>,
) -> (result: RouteResult)
    ensures
        result@ == state_answer(
            crate::text::with_error_text(state),
            crate::http::common::optional_bytes(encoded),
        ),
{
    match state {
        Ok(_) => match encoded {
            Some(body) => answer(HttpStatus::OK, "application/json", body),
            None => say(HttpStatus::InternalError, "Could not serialize result."),
        },
        Err(_) => say(HttpStatus::InternalError, "Could not get state."),
    }
}

/// Answers a request that no route takes.
pub fn not_found_route(request: HttpRequest) -> (result: RouteResult)
    ensures
        result@ == not_found_answer(),
{
    say(HttpStatus::NotFound, "Not found")
}

/// Takes a request to its route. `decoded` is what decoding the body as a
/// state request gave. A state query is answered only after the lookup of
/// the node it names.
pub fn router_with(
    request: HttpRequest,
    decoded: Option<UpdateNodeStateRequest>,
    command_id: Uuid,
) -> (step: RouterStep)
    ensures
        match step {
            RouterStep::Finished(result) => match route_of(
                request@.header.route,
                request@.header.verb,
            ) {
                Route::SetState => result@ == set_state_answer(
                    request@.body,
                    optional_request(decoded),
                    command_id,
                ),
                Route::GetState => false,
                Route::NotFound => result@ == not_found_answer(),
            },
            RouterStep::Resolve(name) => route_of(request@.header.route, request@.header.verb)
                == Route::GetState && name@ == last_segment(request@.header.route, '/'),
        },
{
    match select_route(request.header.route.as_str(), request.header.verb) {
        Route::SetState => RouterStep::Finished(set_state_route_with(request, decoded, command_id)),
        Route::GetState => RouterStep::Resolve(get_state_route(&request)),
        Route::NotFound => RouterStep::Finished(not_found_route(request)),
    }
}

/// Takes a request to its route; a command that it queues gets a new id.
pub fn router(request: HttpRequest, decoded: Option<UpdateNodeStateRequest>) -> (step: RouterStep)
    ensures
        match step {
            RouterStep::Finished(result) => match route_of(
                request@.header.route,
                request@.header.verb,
            ) {
                Route::SetState => exists|command_id: Uuid| result@ == #[trigger] set_state_answer(
                    request@.body,
                    optional_request(decoded),
                    command_id,
                ),
                Route::GetState => false,
                Route::NotFound => result@ == not_found_answer(),
            },
            RouterStep::Resolve(name) => route_of(request@.header.route, request@.header.verb)
                == Route::GetState && name@ == last_segment(request@.header.route, '/'),
        },
{
    match select_route(request.header.route.as_str(), request.header.verb) {
        Route::SetState => RouterStep::Finished(set_state_route(request, decoded)),
        Route::GetState => RouterStep::Resolve(get_state_route(&request)),
        Route::NotFound => RouterStep::Finished(not_found_route(request)),
    }
}

/// The flow after a route's output has been fed into the ring: the events
/// go first, and the commands follow only if every event was accepted.
pub open spec fn ring_flow(
    events: nat,
    events_accepted: nat,
    commands: nat,
    commands_accepted: nat,
) -> Flow {
    if flow_of(events, events_accepted) == Flow::Stop {
        Flow::Stop
    } else {
        flow_of(commands, commands_accepted)
    }
}

/// Feeds what a route produced into the ring: first the events, then the
/// commands, each in order. Stops at the first queue that has gone.
pub fn feed_ring(
    events: Vec<Event>,
    commands: Vec<Command>,
    event_sender: &Sender<Event>,
    command_sender: &Sender<Command>,
    logger: &Logger,
) -> (flow: Flow)
    ensures
        events.len() == 0 && commands.len() == 0 ==> flow == Flow::Continue,
        exists|events_accepted: nat, commands_accepted: nat|
            events_accepted <= events.len() && commands_accepted <= commands.len() && flow
                == #[trigger] ring_flow(
                events.len() as nat,
                events_accepted,
                commands.len() as nat,
                commands_accepted,
            ),
{
    let event_count = events.len();
    let command_count = commands.len();
    let mut i: usize = 0;
    while i < events.len()
        invariant
            i <= events.len(),
        decreases events.len() - i,
    {
        let _ = logger.log_info(
            String::from_str("Rising event - id: ").concat(events[i].id.to_string().as_str()),
        );
        i += 1;
    }
    let events_accepted = deliver_all(event_sender, events);
    if flow_after(event_count, events_accepted) == Flow::Stop {
        assert(Flow::Stop == ring_flow(
            event_count as nat,
            events_accepted as nat,
            command_count as nat,
            0,
        ));
        return Flow::Stop;
    }
    let mut j: usize = 0;
    while j < commands.len()
        invariant
            j <= commands.len(),
        decreases commands.len() - j,
    {
        let _ = logger.log_info(
            String::from_str("Queuing command - id: ").concat(commands[j].id.to_string().as_str()),
        );
        j += 1;
    }
    let commands_accepted = deliver_all(command_sender, commands);
    let flow = flow_after(command_count, commands_accepted);
    assert(flow == ring_flow(
        event_count as nat,
        events_accepted as nat,
        command_count as nat,
        commands_accepted as nat,
    ));
    flow
}

/// The short name of a connection: the first six characters of an id's
/// text, or all of it if it is shorter.
pub open spec fn slug_of(id_text: Seq<char>) -> Seq<char> {
    if id_text.len() <= 6 {
        id_text
    } else {
        id_text.take(6)
    }
}

/// The short name under which a connection logs.
pub fn connection_slug(id_text: &str) -> (slug: String)
    ensures
        slug@ == slug_of(id_text@),
{
    let chars = to_chars(id_text);
    if chars.len() <= 6 {
        from_chars(&chars)
    } else {
        let head = copy_range(&chars, 0, 6);
        from_chars(&head)
    }
}

/// A short name for a new connection, cut from a new id.
pub fn fresh_slug() -> (slug: String)
    ensures
        exists|id_text: Seq<char>| slug@ == #[trigger] slug_of(id_text),
{
    let text = fresh_id().to_string();
    let slug = connection_slug(text.as_str());
    assert(slug@ == slug_of(text@));
    slug
}

} // verus!
