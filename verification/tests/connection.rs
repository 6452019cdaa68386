use gemini_server::config::{load, BaseConfig, HostTable, ServerSettings};
use gemini_server::connection::{handle_connection, ConnectionAction, ConnectionEvent, ConnectionState, Outcome};
use gemini_server::listing::DirEntry;
use gemini_server::request::{Action, Event, HandleError, RequestError, Response, REQUEST_CAPACITY};
use gemini_server::status::Status;

fn table() -> HostTable {
    let section = |name: &str, root: &str| ServerSettings {
        server_name: vec![String::from(name)],
        server_root: String::from(root),
        index: vec![String::from("index.gmi")],
        autoindex_rules: vec![String::from("^/pub/")],
        rewrite_rules: vec![],
        redirect_rules: vec![],
    };
    let base = BaseConfig { listen_addr: String::new(), tls_certificate: String::new(), tls_certificate_key: String::new() };
    load(base, vec![section("example.org", "/srv/one"), section("other.example", "/srv/two")]).unwrap().1
}

fn read(state: ConnectionState, bytes: &[u8]) -> (ConnectionState, ConnectionAction) {
    handle_connection(state, ConnectionEvent::Read(bytes.to_vec()), &table())
}

fn connected() -> ConnectionState {
    let (state, action) = handle_connection(ConnectionState::Accepted, ConnectionEvent::Connected, &table());
    assert_eq!(action, ConnectionAction::Read { limit: REQUEST_CAPACITY });
    assert_eq!(state, ConnectionState::Parsing { buffer: vec![] });
    state
}

fn bad_request() -> ConnectionAction {
    ConnectionAction::Handle(Action::Respond(Response::Header { status: Status::BadRequest, meta: String::from("Bad request") }))
}

#[test]
fn a_file_is_served_and_the_connection_closed() {
    let table = table();
    let (state, action) = read(connected(), b"gemini://other.exam");
    assert_eq!(action, ConnectionAction::Read { limit: REQUEST_CAPACITY - 19 });
    let (state, action) = read(state, b"ple/notes.txt\r\n");
    assert_eq!(action, ConnectionAction::Handle(Action::CheckDirectory(String::from("/srv/two/notes.txt"))));
    let (state, action) = handle_connection(state, ConnectionEvent::Found(Event::Directory(false)), &table);
    assert_eq!(action, ConnectionAction::Handle(Action::CheckExists(String::from("/srv/two/notes.txt"))));
    let (state, action) = handle_connection(state, ConnectionEvent::Found(Event::Exists(true)), &table);
    let response = Response::File { path: String::from("/srv/two/notes.txt"), mimetype: String::from("text/plain") };
    assert_eq!(action, ConnectionAction::Handle(Action::Respond(response)));
    assert_eq!(state, ConnectionState::Responding { outcome: Outcome::Responded(Status::Success) });
    let (state, action) = handle_connection(state, ConnectionEvent::Sent, &table);
    assert_eq!(action, ConnectionAction::Close(Outcome::Responded(Status::Success)));
    assert_eq!(state, ConnectionState::Closed);
}

#[test]
fn a_listing_is_served() {
    let table = table();
    let (state, _) = read(connected(), b"gemini://example.org/pub/\r\n");
    let (state, _) = handle_connection(state, ConnectionEvent::Found(Event::Directory(true)), &table);
    let (state, action) = handle_connection(state, ConnectionEvent::Found(Event::Exists(false)), &table);
    assert_eq!(action, ConnectionAction::Handle(Action::ListDirectory(String::from("/srv/one/pub/"))));
    let entries = vec![DirEntry { name: String::from("a"), is_dir: false }];
    let (state, action) = handle_connection(state, ConnectionEvent::Found(Event::Entries(entries)), &table);
    let text = "Index of gemini://example.org/pub/\n\n=> gemini://example.org/pub/a a\n";
    assert_eq!(action, ConnectionAction::Handle(Action::Respond(Response::Index { text: String::from(text) })));
    assert_eq!(state, ConnectionState::Responding { outcome: Outcome::Responded(Status::Success) });
}

#[test]
fn a_response_without_a_question() {
    let (state, action) = read(connected(), b"gemini://example.org/..%2F..%2Fetc%2Fpasswd\r\n");
    let response = Response::Header { status: Status::NotFound, meta: String::from("File not found") };
    assert_eq!(action, ConnectionAction::Handle(Action::Respond(response)));
    assert_eq!(state, ConnectionState::Responding { outcome: Outcome::Responded(Status::NotFound) });
}

#[test]
fn an_unknown_host_closes_the_connection() {
    for request in [&b"gemini://unknown.example/\r\n"[..], b"gemini://EXAMPLE.ORG./\r\n", b"gemini://sub.example.org/\r\n"] {
        let (state, action) = read(connected(), request);
        assert!(matches!(action, ConnectionAction::Close(Outcome::UnknownHost(_))), "{:?}", action);
        assert_eq!(state, ConnectionState::Closed);
    }
    let (_, action) = read(connected(), b"gemini://unknown.example/\r\n");
    assert_eq!(action, ConnectionAction::Close(Outcome::UnknownHost(String::from("unknown.example"))));
}

#[test]
fn a_url_without_host_closes_the_connection() {
    let (state, action) = read(connected(), b"mailto:someone@example.org\r\n");
    assert_eq!(action, ConnectionAction::Close(Outcome::MissingHost));
    assert_eq!(state, ConnectionState::Closed);
}

#[test]
fn a_request_that_fills_the_buffer_is_refused() {
    let mut state = connected();
    let mut limit = REQUEST_CAPACITY;
    let mut reads = 0;
    loop {
        let chunk = vec![b'a'; limit.min(100)];
        let (next, action) = read(state, &chunk);
        reads += 1;
        match action {
            ConnectionAction::Read { limit: left } => {
                assert_eq!(left, limit - chunk.len());
                assert!(left > 0);
                limit = left;
                state = next;
            },
            other => {
                assert_eq!(other, bad_request());
                assert_eq!(next, ConnectionState::Responding { outcome: Outcome::BadRequest(RequestError::RequestTooLarge) });
                state = next;
                break;
            },
        }
    }
    assert_eq!(reads, 11);
    let (state, action) = handle_connection(state, ConnectionEvent::Sent, &table());
    assert_eq!(action, ConnectionAction::Close(Outcome::BadRequest(RequestError::RequestTooLarge)));
    assert_eq!(state, ConnectionState::Closed);
    if let ConnectionAction::Handle(Action::Respond(response)) = bad_request() {
        assert_eq!(response.header(), b"59 Bad request\r\n");
    }
}

#[test]
fn more_bytes_than_asked_for_are_refused() {
    let (state, action) = read(connected(), &vec![b'a'; REQUEST_CAPACITY + 1]);
    assert_eq!(action, bad_request());
    assert_eq!(state, ConnectionState::Responding { outcome: Outcome::BadRequest(RequestError::RequestTooLarge) });
}

#[test]
fn a_stream_that_ends_early_is_refused() {
    let (state, action) = read(connected(), b"");
    assert_eq!(action, bad_request());
    assert_eq!(state, ConnectionState::Responding { outcome: Outcome::BadRequest(RequestError::UnexpectedTermination) });
    let (state, _) = read(connected(), b"gemini://example.org/");
    let (_, action) = read(state, b"");
    assert_eq!(action, bad_request());
}

#[test]
fn a_malformed_request_is_refused() {
    for request in [&b"\r\n"[..], b"not a url\r\n", b"gemini://example.org/\xff\r\n"] {
        let (state, action) = read(connected(), request);
        assert_eq!(action, bad_request());
        assert_eq!(state, ConnectionState::Responding { outcome: Outcome::BadRequest(RequestError::MalformedRequest) });
    }
}

#[test]
fn a_request_that_cannot_be_handled_closes_the_connection() {
    let (state, action) = read(connected(), b"gemini://example.org/%ff\r\n");
    assert_eq!(action, ConnectionAction::Close(Outcome::Failed(HandleError::PathEncoding)));
    assert_eq!(state, ConnectionState::Closed);
}

#[test]
fn a_read_that_fails_is_answered_like_a_stream_that_ends() {
    let table = table();
    for state in [connected(), read(connected(), b"gemini://").0] {
        let (next, action) = handle_connection(state, ConnectionEvent::Failed, &table);
        assert_eq!(action, bad_request());
        assert_eq!(next, ConnectionState::Responding { outcome: Outcome::BadRequest(RequestError::UnexpectedTermination) });
        let (next, action) = handle_connection(next, ConnectionEvent::Failed, &table);
        assert_eq!(action, ConnectionAction::Close(Outcome::Aborted));
        assert_eq!(next, ConnectionState::Closed);
    }
}

#[test]
fn a_failure_closes_the_connection() {
    let table = table();
    let (handling, _) = read(connected(), b"gemini://example.org/x\r\n");
    let (responding, _) = read(connected(), b"\r\n");
    for state in [ConnectionState::Accepted, handling, responding, ConnectionState::Closed] {
        let (next, action) = handle_connection(state, ConnectionEvent::Failed, &table);
        assert_eq!(action, ConnectionAction::Close(Outcome::Aborted));
        assert_eq!(next, ConnectionState::Closed);
    }
}

#[test]
fn events_out_of_turn_close_the_connection() {
    let table = table();
    let (handling, _) = read(connected(), b"gemini://example.org/x\r\n");
    let cases = vec![
        (ConnectionState::Accepted, ConnectionEvent::Read(vec![])),
        (ConnectionState::Accepted, ConnectionEvent::Sent),
        (connected(), ConnectionEvent::Connected),
        (connected(), ConnectionEvent::Found(Event::Exists(true))),
        (handling.clone(), ConnectionEvent::Read(b"more".to_vec())),
        (handling.clone(), ConnectionEvent::Sent),
        (ConnectionState::Closed, ConnectionEvent::Connected),
    ];
    for (state, event) in cases {
        let (next, action) = handle_connection(state, event, &table);
        assert_eq!(action, ConnectionAction::Close(Outcome::Aborted));
        assert_eq!(next, ConnectionState::Closed);
    }
    let (next, action) = handle_connection(handling, ConnectionEvent::Found(Event::Exists(true)), &table);
    assert_eq!(action, ConnectionAction::Close(Outcome::Failed(HandleError::UnexpectedEvent)));
    assert_eq!(next, ConnectionState::Closed);
}
