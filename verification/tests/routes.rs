use node_controller::channel::Flow;
use node_controller::common::{
    ChangeNodeStateCommand, Command, CommandType, Event, EventType, NodeStateChangeEvent,
    Operation,
};
use node_controller::events::event_handler::{handle_event, process_event};
use node_controller::events::EventLoop;
use node_controller::http::client::HttpClient;
use node_controller::http::common::{
    HttpRequest, HttpResponse, HttpStatus, HttpVerb, ResponseStep,
};
use node_controller::http::server::{
    connection_slug, feed_ring, fresh_slug, get_state_fetched, get_state_resolved, get_state_route,
    not_found_route, router, router_with, select_route, set_state_route, set_state_route_with,
    GetStateStep, Route, RouteResult, RouterStep,
};
use node_controller::io::network::NameResolver;
use node_controller::io::{get_state, GetNodeStateResponse, UpdateNodeStateRequest, UpdateNodeStateResponse};
use node_controller::logging::common::LogItem;
use node_controller::logging::logger::Logger;
use node_controller::orchestrating::action_handler::{
    after_call, after_lookup, handle_action, ActionStep, OutboundCall, ResolveStep,
};
use node_controller::orchestrating::to_action;
use node_controller::results::result_handler::{handle_result, process_result};
use node_controller::text_map::TextMap;
use std::sync::mpsc::{channel, Receiver};
use uuid::Uuid;

fn logger() -> (Logger, Receiver<LogItem>) {
    let (sender, receiver) = channel();
    (Logger::create("test".to_string(), sender), receiver)
}

fn buffer_with(text: &[u8]) -> [u8; 4096] {
    let mut buffer = [0u8; 4096];
    buffer[..text.len()].copy_from_slice(text);
    buffer
}

fn request(verb: HttpVerb, route: &str, body: Option<&[u8]>) -> HttpRequest {
    HttpRequest::create(
        route.to_string(),
        verb,
        "application/json".to_string(),
        TextMap::new(),
        body.map(|b| b.to_vec()),
    )
}

fn plain(status: HttpStatus, text: &str) -> HttpResponse {
    HttpResponse::create(
        status,
        "text/plain".to_string(),
        TextMap::new(),
        Some(text.as_bytes().to_vec()),
    )
}

fn answer(status: HttpStatus, text: &str) -> RouteResult {
    RouteResult { response: plain(status, text), events: vec![], commands: vec![] }
}

fn decode_request(body: &[u8]) -> Option<UpdateNodeStateRequest> {
    let value: serde_json::Value = serde_json::from_slice(body).ok()?;
    let node = value.get("node")?.as_str()?.to_string();
    let new_state = u8::try_from(value.get("new_state")?.as_u64()?).ok()?;
    Some(UpdateNodeStateRequest { node, new_state })
}

fn decode_response(body: &[u8]) -> Option<UpdateNodeStateResponse> {
    let value: serde_json::Value = serde_json::from_slice(body).ok()?;
    let result = value.get("result")?.as_str()?.to_string();
    let old_state = u8::try_from(value.get("old_state")?.as_u64()?).ok()?;
    let new_state = u8::try_from(value.get("new_state")?.as_u64()?).ok()?;
    Some(UpdateNodeStateResponse { result, old_state, new_state })
}

fn seeded() -> NameResolver {
    let mut seed = TextMap::new();
    seed.insert("node1".to_string(), "203.0.113.10:80".to_string());
    NameResolver::start(seed)
}

#[test]
fn routes_are_selected_by_path_and_verb() {
    assert_eq!(select_route("/node/set-state", HttpVerb::POST), Route::SetState);
    assert_eq!(select_route("/node/set-state", HttpVerb::GET), Route::NotFound);
    assert_eq!(select_route("/node/set-state/", HttpVerb::POST), Route::NotFound);
    assert_eq!(select_route("/node/get-state/node1", HttpVerb::GET), Route::GetState);
    assert_eq!(select_route("/node/get-state", HttpVerb::GET), Route::GetState);
    assert_eq!(select_route("/node/get-state/node1", HttpVerb::POST), Route::NotFound);
    assert_eq!(select_route("/", HttpVerb::GET), Route::NotFound);
}

#[test]
fn set_state_without_body_is_a_bad_request() {
    let result = set_state_route(request(HttpVerb::POST, "/node/set-state", None), None);
    assert_eq!(result, answer(HttpStatus::BadRequest, "Missing request body."));
}

#[test]
fn set_state_with_an_undecodable_body_is_a_bad_request() {
    let body = b"{not json";
    let result = set_state_route(
        request(HttpVerb::POST, "/node/set-state", Some(body)),
        decode_request(body),
    );
    assert_eq!(result, answer(HttpStatus::BadRequest, "Invalid request."));
}

#[test]
fn set_state_queues_one_command() {
    let body = br#"{"node":"node1","new_state":2}"#;
    let result = set_state_route_with(
        request(HttpVerb::POST, "/node/set-state", Some(body)),
        decode_request(body),
        Uuid::from_u128(12),
    );
    assert_eq!(result.response, plain(HttpStatus::OK, "Update state action queued."));
    assert_eq!(result.events, vec![]);
    assert_eq!(
        result.commands,
        vec![Command {
            id: Uuid::from_u128(12),
            command_type: CommandType::ChangeNodeState(ChangeNodeStateCommand {
                node: "node1".to_string(),
                new_state: 2,
            }),
        }]
    );
}

#[test]
fn unrouted_request_is_not_found() {
    let result = not_found_route(request(HttpVerb::PUT, "/elsewhere", None));
    assert_eq!(result, answer(HttpStatus::NotFound, "Not found"));
    let step = router(request(HttpVerb::DELETE, "/node/set-state", None), None);
    assert_eq!(step, RouterStep::Finished(answer(HttpStatus::NotFound, "Not found")));
}

#[test]
fn router_asks_for_the_lookup_of_a_state_query() {
    let query = request(HttpVerb::GET, "/node/get-state/node7", None);
    assert_eq!(get_state_route(&query), "node7");
    assert_eq!(router(query, None), RouterStep::Resolve("node7".to_string()));
    let step = router_with(
        request(HttpVerb::POST, "/node/set-state", None),
        None,
        Uuid::from_u128(1),
    );
    assert_eq!(
        step,
        RouterStep::Finished(answer(HttpStatus::BadRequest, "Missing request body."))
    );
}

#[test]
fn state_query_relays_the_state() {
    let step = get_state_resolved(Some("203.0.113.10:80".to_string()));
    assert_eq!(
        step,
        GetStateStep::Fetch(OutboundCall {
            address: "203.0.113.10:80".to_string(),
            route: "/get-state".to_string(),
            content_type: "text/plain".to_string(),
        })
    );
    let state = GetNodeStateResponse { state: 3 };
    let encoded = br#"{"state":3}"#.to_vec();
    let result = get_state_fetched(Ok(state), Some(encoded.clone()));
    let expected = HttpResponse::create(
        HttpStatus::OK,
        "application/json".to_string(),
        TextMap::new(),
        Some(encoded),
    );
    assert_eq!(result, RouteResult { response: expected, events: vec![], commands: vec![] });
}

#[test]
fn state_query_that_fails_is_an_internal_error() {
    assert_eq!(
        get_state_fetched(Err("Could not connect to server."), None),
        answer(HttpStatus::InternalError, "Could not get state.")
    );
    assert_eq!(
        get_state_fetched(Ok(GetNodeStateResponse { state: 1 }), None),
        answer(HttpStatus::InternalError, "Could not serialize result.")
    );
}

#[test]
fn node_state_is_read_from_a_reply() {
    let with_body = || {
        HttpResponse::create(
            HttpStatus::OK,
            "application/json".to_string(),
            TextMap::new(),
            Some(br#"{"state":3}"#.to_vec()),
        )
    };
    let without_body =
        HttpResponse::create(HttpStatus::OK, "text/plain".to_string(), TextMap::new(), None);
    let state = GetNodeStateResponse { state: 3 };
    assert_eq!(get_state(Ok(with_body()), Some(state)), Ok(state));
    assert_eq!(get_state(Ok(with_body()), None), Err("Unable to parse response"));
    assert_eq!(get_state(Ok(without_body), Some(state)), Err("No response body returned"));
    assert_eq!(get_state(Err("Could not connect to server."), None), Err("Could not connect to server."));
}

#[test]
fn get_sends_a_bodiless_request() {
    let client = HttpClient::create("203.0.113.10:80".to_string());
    assert_eq!(client.address(), "203.0.113.10:80");
    let mut sent = client.get_request(
        "/set-state/2".to_string(),
        "text/plain".to_string(),
        TextMap::new(),
    );
    assert_eq!(sent.header.verb, HttpVerb::GET);
    assert_eq!(sent.header.content_length, 0);
    assert_eq!(sent.body, None);
    assert_eq!(
        String::from_utf8(sent.to_bytes()).unwrap(),
        "GET /set-state/2 HTTP/1.1\r\nServer: Psionic 0.0.1\r\nContent-Length: 0\r\nConnection: Closed\r\nContent-Type: text/plain\r\n\r\n"
    );
}

#[test]
fn get_reports_how_the_transport_went() {
    let reply = || plain(HttpStatus::OK, "x");
    assert_eq!(
        HttpClient::get_result(false, false, Ok(reply())),
        Err("Could not connect to server.")
    );
    assert_eq!(
        HttpClient::get_result(true, false, Ok(reply())),
        Err("Could not connect to server, GET request failed.")
    );
    assert_eq!(HttpClient::get_result(true, true, Ok(reply())), Ok(reply()));
    assert_eq!(
        HttpClient::get_result(true, true, Err("Request header larger than buffer")),
        Err("Request header larger than buffer")
    );
}

#[test]
fn connection_slug_is_the_start_of_the_id() {
    let id = Uuid::from_u128(0x0123456789abcdef0123456789abcdef);
    assert_eq!(connection_slug(&id.to_string()), "012345");
    assert_eq!(connection_slug("abc"), "abc");
    let slug = fresh_slug();
    assert_eq!(slug.len(), 6);
    assert_ne!(slug, fresh_slug());
    assert_eq!(connection_slug(""), "");
}

#[test]
fn route_output_is_fed_into_the_ring_in_order() {
    let (log, _lines) = logger();
    let (event_sender, events) = channel();
    let (command_sender, commands) = channel();
    let event = |n: u128| Event { id: Uuid::from_u128(n), event_type: EventType::Test };
    let command = |n: u128| Command { id: Uuid::from_u128(n), command_type: CommandType::Test };
    let flow = feed_ring(
        vec![event(1), event(2)],
        vec![command(3), command(4)],
        &event_sender,
        &command_sender,
        &log,
    );
    assert_eq!(flow, Flow::Continue);
    assert_eq!(events.try_iter().collect::<Vec<Event>>(), vec![event(1), event(2)]);
    assert_eq!(commands.try_iter().collect::<Vec<Command>>(), vec![command(3), command(4)]);
    drop(commands);
    assert_eq!(feed_ring(vec![], vec![], &event_sender, &command_sender, &log), Flow::Continue);
    assert_eq!(
        feed_ring(vec![event(5)], vec![command(6)], &event_sender, &command_sender, &log),
        Flow::Stop
    );
    assert_eq!(events.try_iter().collect::<Vec<Event>>(), vec![event(5)]);
}

#[test]
fn stage_stops_when_the_next_queue_is_gone() {
    let (log, _lines) = logger();
    let (command_sender, commands) = channel();
    let test_event = || Event { id: Uuid::from_u128(1), event_type: EventType::Test };
    assert_eq!(process_event(test_event(), &command_sender, &log), Flow::Continue);
    assert_eq!(
        commands.try_iter().collect::<Vec<Command>>(),
        vec![Command { id: Uuid::from_u128(1), command_type: CommandType::Test }]
    );
    drop(commands);
    assert_eq!(process_event(test_event(), &command_sender, &log), Flow::Stop);

    let (event_sender, events) = channel();
    let result = |ops: Vec<Operation>| node_controller::common::ActionResult {
        id: Uuid::from_u128(2),
        successful: true,
        message: String::new(),
        ops,
    };
    let raise = || Operation::RaiseEvent(test_event());
    assert_eq!(
        process_result(result(vec![raise(), Operation::Test, raise()]), &event_sender, &log),
        Flow::Continue
    );
    assert_eq!(events.try_iter().count(), 2);
    drop(events);
    assert_eq!(process_result(result(vec![Operation::Test]), &event_sender, &log), Flow::Continue);
    assert_eq!(process_result(result(vec![raise()]), &event_sender, &log), Flow::Stop);
}

#[test]
fn raised_event_reaches_the_event_queue() {
    let (sender, queue) = channel();
    let event_loop = EventLoop::attach(sender);
    let event = || Event { id: Uuid::from_u128(1), event_type: EventType::Test };
    assert_eq!(event_loop.raise_event(event()), Flow::Continue);
    assert_eq!(queue.recv().unwrap(), event());
    drop(queue);
    assert_eq!(event_loop.raise_event(event()), Flow::Stop);
}

#[test]
fn set_state_trigger_runs_once_round_the_ring() {
    let (log, _lines) = logger();
    let resolver = seeded();

    let wire = b"POST /node/set-state HTTP/1.1\r\nContent-Type: application/json\r\nContent-Length: 30\r\n\r\n{\"node\":\"node1\",\"new_state\":2}";
    let trigger = HttpRequest::from_buffer(buffer_with(wire)).unwrap();
    let decoded = trigger.body.as_ref().and_then(|body| decode_request(body));
    let routed = match router(trigger, decoded) {
        RouterStep::Finished(result) => result,
        RouterStep::Resolve(_) => panic!("a state request needs no lookup at the boundary"),
    };
    assert_eq!(routed.response, plain(HttpStatus::OK, "Update state action queued."));
    assert_eq!(routed.response.header.status.get_code(), 200);
    assert_eq!(routed.events.len(), 0);
    assert_eq!(routed.commands.len(), 1);

    let command = routed.commands.into_iter().next().unwrap();
    let command_id = command.id;
    assert_eq!(
        command.command_type,
        CommandType::ChangeNodeState(ChangeNodeStateCommand {
            node: "node1".to_string(),
            new_state: 2,
        })
    );

    let action = to_action(command);
    assert_eq!(action.id, command_id);
    let pending = match handle_action(action, &log) {
        ActionStep::Resolve(pending) => pending,
        ActionStep::Finished(_) => panic!("a state change needs its node's address"),
    };
    let address = resolver.lookup(&pending.node);
    assert_eq!(address, Some("203.0.113.10:80".to_string()));
    let (pending, call) = match after_lookup(pending, address, &log) {
        ResolveStep::Call(pending, call) => (pending, call),
        ResolveStep::Finished(_) => panic!("node1 is in the directory"),
    };
    assert_eq!(call.address, "203.0.113.10:80");
    assert_eq!(call.route, "/set-state/2");

    let mut remote = HttpResponse::create(
        HttpStatus::OK,
        "application/json".to_string(),
        TextMap::new(),
        Some(br#"{"result":"updated","old_state":1,"new_state":2}"#.to_vec()),
    );
    let bytes = remote.to_bytes();
    let reply = match HttpResponse::from_buffer(buffer_with(&bytes), bytes.len()).unwrap() {
        ResponseStep::Complete(reply) => reply,
        ResponseStep::AwaitBody(_) => panic!("the body came with the header"),
    };
    let decoded = reply.body.as_ref().and_then(|body| decode_response(body));
    let result = after_call(pending, HttpClient::get_result(true, true, Ok(reply)), decoded, &log);
    assert_eq!(result.id, command_id);
    assert!(result.successful);
    assert_eq!(result.ops.len(), 1);
    match &result.ops[0] {
        Operation::RaiseEvent(event) => {
            assert_ne!(event.id, command_id);
            assert_eq!(
                event.event_type,
                EventType::NodeStateChange(NodeStateChangeEvent {
                    node: "node1".to_string(),
                    old_state: 1,
                    new_state: 2,
                })
            );
        }
        Operation::Test => panic!("a state change raises an event"),
    }

    let mut events = handle_result(result, &log);
    assert_eq!(events.len(), 1);
    let commands = handle_event(events.remove(0), &log);
    assert_eq!(commands, vec![]);
}

#[test]
fn state_query_for_an_unknown_node_is_not_found() {
    let resolver = seeded();
    let wire = b"GET /node/get-state/unknown HTTP/1.1\r\n\r\n";
    let query = HttpRequest::from_buffer(buffer_with(wire)).unwrap();
    let name = match router(query, None) {
        RouterStep::Resolve(name) => name,
        RouterStep::Finished(_) => panic!("a state query needs a lookup"),
    };
    assert_eq!(name, "unknown");
    let result = match get_state_resolved(resolver.lookup(&name)) {
        GetStateStep::Finished(result) => result,
        GetStateStep::Fetch(_) => panic!("the node is not in the directory"),
    };
    assert_eq!(result.response.header.status, HttpStatus::NotFound);
    assert_eq!(result.response.header.status.get_code(), 404);
    assert_eq!(result.response.body, Some(b"Node not found.".to_vec()));
    assert_eq!(result.events, vec![]);
    assert_eq!(result.commands, vec![]);
}
