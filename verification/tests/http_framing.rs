use node_controller::http::common::{
    record_header, HttpRequest, HttpRequestHeader, HttpResponse, HttpResponseHeader, HttpStatus,
    HttpVerb, ResponseStep,
};
use node_controller::text_map::TextMap;

fn buffer_with(text: &[u8]) -> [u8; 4096] {
    let mut buffer = [0u8; 4096];
    buffer[..text.len()].copy_from_slice(text);
    buffer
}

#[test]
fn verb_names_are_read_in_any_case() {
    assert_eq!(HttpVerb::from_str("get"), Ok(HttpVerb::GET));
    assert_eq!(HttpVerb::from_str("Post"), Ok(HttpVerb::POST));
    assert_eq!(HttpVerb::from_str("PATCH"), Ok(HttpVerb::PATCH));
    assert_eq!(HttpVerb::from_str("FETCH"), Err("Unknown http verb"));
    assert_eq!(HttpVerb::from_upper("get"), Err("Unknown http verb"));
    assert_eq!(HttpVerb::DELETE.get_str(), "DELETE");
}

#[test]
fn status_codes_round_trip() {
    for status in [
        HttpStatus::OK,
        HttpStatus::BadRequest,
        HttpStatus::Unauthorized,
        HttpStatus::NotFound,
        HttpStatus::MethodNotAllowed,
        HttpStatus::InternalError,
    ] {
        assert_eq!(HttpStatus::from_code(status.get_code()), Ok(status));
    }
    assert_eq!(HttpStatus::from_code(404), Ok(HttpStatus::NotFound));
    assert_eq!(HttpStatus::NotFound.get_str(), "Not Found");
    assert_eq!(HttpStatus::from_code(418), Err("Unknown response type code"));
}

#[test]
fn request_header_is_parsed() {
    let text = "POST /node/set-state HTTP/1.1\r\nHost: example\r\nContent-Length: 12\r\nbroken line\r\n\r";
    let header = HttpRequestHeader::parse_from_string(text.to_string()).unwrap();
    assert_eq!(header.verb, HttpVerb::POST);
    assert_eq!(header.route, "/node/set-state");
    assert_eq!(header.http_version, "HTTP/1.1");
    assert_eq!(header.content_length, 12);
    assert_eq!(header.headers.len(), 2);
    assert_eq!(header.headers.get("HOST"), Some("example".to_string()));
    assert_eq!(header.headers.get("CONTENT-LENGTH"), Some("12".to_string()));
    assert_eq!(header.headers.get("Host"), None);
}

#[test]
fn malformed_request_lines_are_rejected() {
    assert_eq!(
        HttpRequestHeader::parse_from_string("GET".to_string()).err(),
        Some("Malformed request line")
    );
    assert_eq!(
        HttpRequestHeader::parse_from_string("BREW /pot HTTP/1.1".to_string()).err(),
        Some("Unknown http verb")
    );
    assert_eq!(
        HttpRequestHeader::parse_from_string(String::new()).err(),
        Some("Unknown http verb")
    );
}

#[test]
fn content_length_that_is_no_number_is_ignored() {
    let text = "GET / HTTP/1.1\r\nContent-Length: twelve";
    let header = HttpRequestHeader::parse_from_string(text.to_string()).unwrap();
    assert_eq!(header.content_length, 0);
    assert_eq!(header.headers.get("CONTENT-LENGTH"), Some("twelve".to_string()));
    let text = "GET / HTTP/1.1\r\nContent-Length: +7\r\ncontent-length: 99999999999999999999999999";
    let header = HttpRequestHeader::parse_from_string(text.to_string()).unwrap();
    assert_eq!(header.content_length, 7);
}

#[test]
fn response_header_is_parsed() {
    let text = "HTTP/1.1 404 Not Found\r\nServer: x: y\r\n";
    let header = HttpResponseHeader::parse_from_string(text.to_string()).unwrap();
    assert_eq!(header.status, HttpStatus::NotFound);
    assert_eq!(header.http_version, "HTTP/1.1");
    assert_eq!(header.headers.get("SERVER"), Some("x".to_string()));
    assert_eq!(
        HttpResponseHeader::parse_from_string("HTTP/1.1 abc".to_string()).err(),
        Some("Failed to parse status code")
    );
    assert_eq!(
        HttpResponseHeader::parse_from_string("HTTP/1.1 99999".to_string()).err(),
        Some("Failed to parse status code")
    );
    assert_eq!(
        HttpResponseHeader::parse_from_string("HTTP/1.1 -200".to_string()).err(),
        Some("Unknown response type code")
    );
    assert_eq!(
        HttpResponseHeader::parse_from_string("HTTP/1.1".to_string()).err(),
        Some("Malformed status line")
    );
}

#[test]
fn request_is_read_from_a_buffer() {
    let buffer = buffer_with(b"POST /x HTTP/1.1\r\nContent-Length: 5\r\n\r\nhello and more");
    let request = HttpRequest::from_buffer(buffer).unwrap();
    assert_eq!(request.header.route, "/x");
    assert_eq!(request.body, Some(b"hello".to_vec()));
    let (header, start) = HttpRequestHeader::create_from_buffer(buffer).unwrap();
    assert_eq!(start, 39);
    assert_eq!(header.content_length, 5);
}

#[test]
fn request_without_an_empty_line_is_refused() {
    let buffer = buffer_with(b"GET / HTTP/1.1\r\nHost: a\r\n");
    assert_eq!(HttpRequest::from_buffer(buffer).err(), Some("Request header larger than buffer"));
    assert_eq!(
        HttpResponseHeader::create_from_buffer(buffer).err(),
        Some("Request header larger than buffer")
    );
}

#[test]
fn body_that_does_not_fit_is_left_out() {
    let buffer = buffer_with(b"GET / HTTP/1.1\r\nContent-Length: 5000\r\n\r\nabc");
    let request = HttpRequest::from_buffer(buffer).unwrap();
    assert_eq!(request.header.content_length, 5000);
    assert_eq!(request.body, None);
    let buffer = buffer_with(b"GET / HTTP/1.1\r\nContent-Length: 0\r\n\r\nabc");
    assert_eq!(HttpRequest::from_buffer(buffer).unwrap().body, None);
}

#[test]
fn response_in_one_read_is_complete() {
    let text = b"HTTP/1.1 200 OK\r\nContent-Length: 3\r\n\r\nabc";
    let buffer = buffer_with(text);
    match HttpResponse::from_buffer(buffer, text.len()).unwrap() {
        ResponseStep::Complete(response) => {
            assert_eq!(response.header.status, HttpStatus::OK);
            assert_eq!(response.body, Some(b"abc".to_vec()));
        }
        ResponseStep::AwaitBody(_) => panic!("the body was in the buffer"),
    }
}

#[test]
fn response_body_may_come_with_a_second_read() {
    let text = b"HTTP/1.1 200 OK\r\nContent-Length: 3\r\n\r\n";
    let buffer = buffer_with(text);
    match HttpResponse::from_buffer(buffer, text.len()).unwrap() {
        ResponseStep::AwaitBody(header) => {
            let response = HttpResponse::with_body(header, buffer_with(b"xyz!"));
            assert_eq!(response.body, Some(b"xyz".to_vec()));
        }
        ResponseStep::Complete(_) => panic!("the body had not arrived"),
    }
}

#[test]
fn created_request_is_written_with_standard_headers() {
    let mut extra = TextMap::new();
    extra.insert("X-Trace".to_string(), "1".to_string());
    extra.insert("Connection".to_string(), "keep-alive".to_string());
    let mut request = HttpRequest::create(
        "/get-state".to_string(),
        HttpVerb::GET,
        "text/plain".to_string(),
        extra,
        None,
    );
    let expected = "GET /get-state HTTP/1.1\r\nServer: Psionic 0.0.1\r\nContent-Length: 0\r\nConnection: keep-alive\r\nContent-Type: text/plain\r\nX-Trace: 1\r\n\r\n";
    assert_eq!(request.header.get_string(), expected);
    assert_eq!(request.to_bytes(), expected.as_bytes().to_vec());
    assert_eq!(request.header.to_bytes(), expected.as_bytes().to_vec());
}

#[test]
fn created_response_is_written_with_its_body() {
    let mut response = HttpResponse::create(
        HttpStatus::InternalError,
        "text/plain".to_string(),
        TextMap::new(),
        Some(b"Could not get state.".to_vec()),
    );
    let head = "HTTP/1.1 500 Internal Error\r\nServer: Psionic 0.0.1\r\nContent-Length: 20\r\nConnection: Closed\r\nContent-Type: text/plain\r\n\r\n";
    assert_eq!(response.header.get_string(), head);
    assert_eq!(response.header.content_length, 20);
    let mut expected = head.as_bytes().to_vec();
    expected.extend_from_slice(b"Could not get state.");
    assert_eq!(response.to_bytes(), expected);
    assert_eq!(response.header.to_bytes(), head.as_bytes().to_vec());
}

#[test]
fn written_response_is_read_back() {
    let mut response = HttpResponse::create(
        HttpStatus::OK,
        "application/json".to_string(),
        TextMap::new(),
        Some(b"{\"state\":3}".to_vec()),
    );
    let bytes = response.to_bytes();
    match HttpResponse::from_buffer(buffer_with(&bytes), bytes.len()).unwrap() {
        ResponseStep::Complete(read) => {
            assert_eq!(read.header.status, HttpStatus::OK);
            assert_eq!(read.header.content_length, 11);
            assert_eq!(read.body, Some(b"{\"state\":3}".to_vec()));
            assert_eq!(read.header.headers.get("CONTENT-TYPE"), Some("application/json".to_string()));
        }
        ResponseStep::AwaitBody(_) => panic!("the body was in the buffer"),
    }
}

#[test]
fn recorded_header_may_declare_the_content_length() {
    let mut headers = TextMap::new();
    let length = record_header(&mut headers, 0, "HOST".to_string(), "a".to_string());
    assert_eq!(length, 0);
    let length = record_header(&mut headers, length, "CONTENT-LENGTH".to_string(), "42".to_string());
    assert_eq!(length, 42);
    let length = record_header(&mut headers, length, "CONTENT-LENGTH".to_string(), "x".to_string());
    assert_eq!(length, 42);
    let length = record_header(&mut headers, length, "Content-Length".to_string(), "7".to_string());
    assert_eq!(length, 42);
    assert_eq!(headers.len(), 3);
    assert_eq!(headers.get("CONTENT-LENGTH"), Some("x".to_string()));
}

#[test]
fn header_keys_are_stored_in_upper_case() {
    let text = "GET / HTTP/1.1\r\nx-straße: 1\r\nX-STRASSE: 2";
    let header = HttpRequestHeader::parse_from_string(text.to_string()).unwrap();
    assert_eq!(header.headers.len(), 1);
    assert_eq!(header.headers.get("X-STRASSE"), Some("2".to_string()));
}

#[test]
fn ill_formed_bytes_in_a_header_are_replaced() {
    let buffer = buffer_with(b"GET /\xff HTTP/1.1\r\n\r\n");
    let (header, start) = HttpRequestHeader::create_from_buffer(buffer).unwrap();
    assert_eq!(header.route, "/\u{fffd}");
    assert_eq!(start, 19);
}

#[test]
fn header_end_in_the_first_five_bytes_is_passed_over() {
    let buffer = buffer_with(b"x\r\n\r\n");
    assert_eq!(
        HttpRequestHeader::create_from_buffer(buffer).err(),
        Some("Request header larger than buffer")
    );
}
