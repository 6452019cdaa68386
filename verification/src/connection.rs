//! One connection from the completed handshake to its close: read the
//! request, find the host, handle the request, send the response.

use vstd::prelude::*;
use crate::config::{last_serving, HostTable};
use crate::request::{
    handle, header_of, parse, parsed_request, progress, read_progress, status_of, step, terminated,
    Action, ActionView,
    Event, EventView, HandleError, HandleErrorView, HandleState, HandleStateView, Handled,
    HandledView, ReadProgress, RequestError, Response, ResponseView, REQUEST_CAPACITY,
};
use crate::status::{status_line, Status};
use crate::url::{RequestUrl, UrlView};

verus! {

/// How a connection ended.
#[derive(Debug, Clone, PartialEq, Eq)]
pub enum Outcome {
    /// A response with this status was sent.
    Responded(Status),
    /// No request could be read, and the client was told so.
    BadRequest(RequestError),
    /// The URL of the request names no host.
    MissingHost,
    /// No configured host answers to the host of the request.
    UnknownHost(String),
    /// The request could not be answered.
    Failed(HandleError),
    /// The caller reported a failure, or an event came out of turn.
    Aborted,
}

/// Where a connection stands.
#[derive(Debug, Clone, PartialEq, Eq)]
pub enum ConnectionState {
    /// The transport is not ready yet.
    Accepted,
    /// The request is being read; `buffer` holds what has come.
    Parsing { buffer: Vec<u8> },
    /// The request for `url` is being handled for the host at the place
    /// `server` of the table.
    Handling { url: RequestUrl, server: usize, state: HandleState },
    /// The response is being sent.
    Responding { outcome: Outcome },
    /// The connection is over.
    Closed,
}

/// What happened on the connection since the last action.
#[derive(Debug, Clone, PartialEq, Eq)]
pub enum ConnectionEvent {
    /// The handshake is complete.
    Connected,
    /// A read brought these bytes; none, if the stream has ended.
    Read(Vec<u8>),
    /// The answer to a question about the filesystem.
    Found(Event),
    /// The response has been sent.
    Sent,
    /// The action could not be carried out.
    Failed,
}

/// What the caller is to do next on the connection.
#[derive(Debug, Clone, PartialEq, Eq)]
pub enum ConnectionAction {
    /// Read at most `limit` bytes, and answer with `ConnectionEvent::Read`.
    Read { limit: usize },
    /// Answer a question about the filesystem with
    /// `ConnectionEvent::Found`, or send a response and answer with
    /// `ConnectionEvent::Sent`.
    Handle(Action),
    /// Flush what was written, as far as that is possible, and close.
    Close(Outcome),
}

/// An `Outcome`, with text in place of its string.
pub ghost enum OutcomeView {
    Responded(Status),
    BadRequest(RequestError),
    MissingHost,
    UnknownHost(Seq<char>),
    Failed(HandleErrorView),
    Aborted,
}

/// A `ConnectionState`, with sequences and texts in place of its
/// vectors and strings.
pub ghost enum ConnectionStateView {
    Accepted,
    Parsing { buffer: Seq<u8> },
    Handling { url: UrlView, server: int, state: HandleStateView },
    Responding { outcome: OutcomeView },
    Closed,
}

/// A `ConnectionEvent`, with a sequence in place of its vector.
pub ghost enum ConnectionEventView {
    Connected,
    Read(Seq<u8>),
    Found(EventView),
    Sent,
    Failed,
}

/// A `ConnectionAction`, with text in place of its string.
pub ghost enum ConnectionActionView {
    Read { limit: int },
    Handle(ActionView),
    Close(OutcomeView),
}

impl View for Outcome {
    type V = OutcomeView;

    open spec fn view(&self) -> OutcomeView {
        match self {
            Outcome::Responded(status) => OutcomeView::Responded(*status),
            Outcome::BadRequest(e) => OutcomeView::BadRequest(*e),
            Outcome::MissingHost => OutcomeView::MissingHost,
            Outcome::UnknownHost(host) => OutcomeView::UnknownHost(host@),
            Outcome::Failed(e) => OutcomeView::Failed(e@),
            Outcome::Aborted => OutcomeView::Aborted,
        }
    }
}

impl View for ConnectionState {
    type V = ConnectionStateView;

    open spec fn view(&self) -> ConnectionStateView {
        match self {
            ConnectionState::Accepted => ConnectionStateView::Accepted,
            ConnectionState::Parsing { buffer } => ConnectionStateView::Parsing { buffer: buffer@ },
            ConnectionState::Handling { url, server, state } => ConnectionStateView::Handling {
                url: url@,
                server: *server as int,
                state: state@,
            },
            ConnectionState::Responding { outcome } => ConnectionStateView::Responding {
                outcome: outcome@,
            },
            ConnectionState::Closed => ConnectionStateView::Closed,
        }
    }
}

impl View for ConnectionEvent {
    type V = ConnectionEventView;

    open spec fn view(&self) -> ConnectionEventView {
        match self {
            ConnectionEvent::Connected => ConnectionEventView::Connected,
            ConnectionEvent::Read(chunk) => ConnectionEventView::Read(chunk@),
            ConnectionEvent::Found(event) => ConnectionEventView::Found(event@),
            ConnectionEvent::Sent => ConnectionEventView::Sent,
            ConnectionEvent::Failed => ConnectionEventView::Failed,
        }
    }
}

impl View for ConnectionAction {
    type V = ConnectionActionView;

    open spec fn view(&self) -> ConnectionActionView {
        match self {
            ConnectionAction::Read { limit } => ConnectionActionView::Read { limit: *limit as int },
            ConnectionAction::Handle(action) => ConnectionActionView::Handle(action@),
            ConnectionAction::Close(outcome) => ConnectionActionView::Close(outcome@),
        }
    }
}

/// A state of a connection and the action that leads on from it.
pub type Turn = (ConnectionState, ConnectionAction);

/// A state of a connection and the action that leads on from it, in the
/// terms of contracts.
pub type TurnView = (ConnectionStateView, ConnectionActionView);

/// The connection is over, for the reason `outcome`.
pub open spec fn closed(outcome: OutcomeView) -> TurnView {
    (ConnectionStateView::Closed, ConnectionActionView::Close(outcome))
}

/// The response to a client whose request could not be read.
pub open spec fn bad_request_response() -> ResponseView {
    ResponseView::Header { status: Status::BadRequest, meta: "Bad request"@ }
}

/// No request could be read: the client is told so, and then the
/// connection is closed.
pub open spec fn bad_request(error: RequestError) -> TurnView {
    (
        ConnectionStateView::Responding { outcome: OutcomeView::BadRequest(error) },
        ConnectionActionView::Handle(ActionView::Respond(bad_request_response())),
    )
}

/// Where the connection goes after a step of handling the request: a
/// question is passed on to the caller, a response is sent, and a
/// failure closes the connection without a response.
pub open spec fn advanced(url: UrlView, server: int, handled: HandledView) -> TurnView {
    match handled {
        Err(e) => closed(OutcomeView::Failed(e)),
        Ok((state, action)) => match action {
            ActionView::Respond(response) => (
                ConnectionStateView::Responding {
                    outcome: OutcomeView::Responded(status_of(response)),
                },
                ConnectionActionView::Handle(action),
            ),
            _ => (
                ConnectionStateView::Handling { url, server, state },
                ConnectionActionView::Handle(action),
            ),
        },
    }
}

/// Where the connection goes once the request for `url` is parsed: the
/// host of the URL is looked up by its very name; a URL without a host,
/// or with a host that the table does not know, closes the connection
/// without a response; for a known host the handling starts.
pub open spec fn routed(url: UrlView, table: HostTable) -> TurnView {
    match url.host {
        None => closed(OutcomeView::MissingHost),
        Some(host) => match last_serving(table.servers(), host) {
            None => closed(OutcomeView::UnknownHost(host)),
            Some(server) => advanced(
                url,
                server,
                step(HandleStateView::Start, EventView::Begin, url, table.servers()[server]),
            ),
        },
    }
}

/// Where the connection goes after a read that brought `read_count`
/// bytes, when `buffer` holds all that has come.
pub open spec fn received(buffer: Seq<u8>, read_count: int, table: HostTable) -> TurnView {
    match progress(buffer, read_count) {
        ReadProgress::Continue => (
            ConnectionStateView::Parsing { buffer },
            ConnectionActionView::Read { limit: REQUEST_CAPACITY - buffer.len() },
        ),
        ReadProgress::Failed(e) => bad_request(e),
        ReadProgress::Complete => match parsed_request(buffer) {
            Err(e) => bad_request(e),
            Ok(url) => routed(url, table),
        },
    }
}

/// Where the connection goes after the caller answered a question about
/// the filesystem: the handling of the request goes one step on.
pub open spec fn answered(
    url: UrlView,
    server: int,
    state: HandleStateView,
    event: EventView,
    table: HostTable,
) -> TurnView {
    if 0 <= server < table.servers().len() {
        advanced(url, server, step(state, event, url, table.servers()[server]))
    } else {
        closed(OutcomeView::Aborted)
    }
}

/// One step of a connection: from its state and what happened to the
/// state that follows and what the caller is to do. A read that fails
/// is answered like a stream that ends before the request is complete.
/// Any other failure that the caller reports, and an event out of turn,
/// close the connection.
pub open spec fn connection_step(
    state: ConnectionStateView,
    event: ConnectionEventView,
    table: HostTable,
) -> TurnView {
    match (state, event) {
        (ConnectionStateView::Accepted, ConnectionEventView::Connected) => (
            ConnectionStateView::Parsing { buffer: Seq::empty() },
            ConnectionActionView::Read { limit: REQUEST_CAPACITY as int },
        ),
        (ConnectionStateView::Parsing { buffer }, ConnectionEventView::Read(chunk)) => received(
            buffer + chunk,
            chunk.len() as int,
            table,
        ),
        (ConnectionStateView::Parsing { .. }, ConnectionEventView::Failed) => bad_request(
            RequestError::UnexpectedTermination,
        ),
        (
            ConnectionStateView::Handling { url, server, state },
            ConnectionEventView::Found(event),
        ) => answered(url, server, state, event, table),
        (ConnectionStateView::Responding { outcome }, ConnectionEventView::Sent) => closed(outcome),
        _ => closed(OutcomeView::Aborted),
    }
}

fn close(outcome: Outcome) -> (r: Turn)
    ensures
        (r.0@, r.1@) == closed(outcome@),
{
    (ConnectionState::Closed, ConnectionAction::Close(outcome))
}

fn refuse(error: RequestError) -> (r: Turn)
    ensures
        (r.0@, r.1@) == bad_request(error),
{
    let response = Response::Header { status: Status::BadRequest, meta: "Bad request".to_owned() };
    (
        ConnectionState::Responding { outcome: Outcome::BadRequest(error) },
        ConnectionAction::Handle(Action::Respond(response)),
    )
}

fn advance(url: RequestUrl, server: usize, handled: Handled) -> (r: Turn)
    ensures
        (r.0@, r.1@) == advanced(url@, server as int, crate::request::handled_view(handled)),
{
    match handled {
        Err(e) => close(Outcome::Failed(e)),
        Ok((state, action)) => match action {
            Action::Respond(response) => {
                let outcome = Outcome::Responded(response.status());
                (
                    ConnectionState::Responding { outcome },
                    ConnectionAction::Handle(Action::Respond(response)),
                )
            },
            question => (
                ConnectionState::Handling { url, server, state },
                ConnectionAction::Handle(question),
            ),
        },
    }
}

fn route(url: RequestUrl, table: &HostTable) -> (r: Turn)
    ensures
        (r.0@, r.1@) == routed(url@, *table),
{
    let found = match url.host_str() {
        None => {
            return close(Outcome::MissingHost);
        },
        Some(host) => match table.resolve(host) {
            None => {
                return close(Outcome::UnknownHost(host.to_owned()));
            },
            Some(server) => server,
        },
    };
    match table.server(found) {
        Some(config) => {
            let handled = handle(HandleState::Start, Event::Begin, &url, config);
            advance(url, found, handled)
        },
        None => close(Outcome::Aborted),
    }
}

fn receive(buffer: Vec<u8>, read_count: usize, table: &HostTable) -> (r: Turn)
    ensures
        (r.0@, r.1@) == received(buffer@, read_count as int, *table),
{
    match read_progress(buffer.as_slice(), read_count) {
        ReadProgress::Continue => {
            let limit = REQUEST_CAPACITY - buffer.len();
            (ConnectionState::Parsing { buffer }, ConnectionAction::Read { limit })
        },
        ReadProgress::Failed(e) => refuse(e),
        ReadProgress::Complete => match parse(buffer.as_slice()) {
            Err(e) => refuse(e),
            Ok(url) => route(url, table),
        },
    }
}

fn answer(url: RequestUrl, server: usize, state: HandleState, found: Event, table: &HostTable) -> (r:
    Turn)
    ensures
        (r.0@, r.1@) == answered(url@, server as int, state@, found@, *table),
{
    match table.server(server) {
        Some(config) => {
            let handled = handle(state, found, &url, config);
            advance(url, server, handled)
        },
        None => close(Outcome::Aborted),
    }
}

/// Takes a connection one step on. The caller starts with
/// `ConnectionState::Accepted` and, once the handshake is complete,
/// `ConnectionEvent::Connected`; it does what each action says and comes
/// back with the state and what happened, until the action is to close.
/// One request is served, and nothing that a client sends makes a step
/// fail: what cannot be answered closes the connection.
pub fn handle_connection(state: ConnectionState, event: ConnectionEvent, table: &HostTable) -> (r:
    Turn)
    ensures
        (r.0@, r.1@) == connection_step(state@, event@, *table),
{
    match state {
        ConnectionState::Accepted => match event {
            ConnectionEvent::Connected => (
                ConnectionState::Parsing { buffer: Vec::new() },
                ConnectionAction::Read { limit: REQUEST_CAPACITY },
            ),
            _ => close(Outcome::Aborted),
        },
        ConnectionState::Parsing { buffer } => match event {
            ConnectionEvent::Read(chunk) => {
                let ghost before = buffer@;
                let mut buffer = buffer;
                buffer.extend_from_slice(chunk.as_slice());
                assert(buffer@ =~= before + chunk@);
                receive(buffer, chunk.len(), table)
            },
            ConnectionEvent::Failed => refuse(RequestError::UnexpectedTermination),
            _ => close(Outcome::Aborted),
        },
        ConnectionState::Handling { url, server, state } => match event {
            ConnectionEvent::Found(found) => answer(url, server, state, found, table),
            _ => close(Outcome::Aborted),
        },
        ConnectionState::Responding { outcome } => match event {
            ConnectionEvent::Sent => close(outcome),
            _ => close(Outcome::Aborted),
        },
        ConnectionState::Closed => close(Outcome::Aborted),
    }
}

/// A request for a host that the table does not know closes the
/// connection, and nothing is sent: whatever the table and the request,
/// the step is taken, and it ends in the closed state.
pub proof fn lemma_unknown_host_closes(
    buffer: Seq<u8>,
    chunk: Seq<u8>,
    table: HostTable,
    url: UrlView,
    host: Seq<char>,
)
    requires
        progress(buffer + chunk, chunk.len() as int) == ReadProgress::Complete,
        parsed_request(buffer + chunk) == Ok::<_, RequestError>(url),
        url.host == Some(host),
        !table.routes().contains_key(host),
    ensures
        connection_step(
            ConnectionStateView::Parsing { buffer },
            ConnectionEventView::Read(chunk),
            table,
        ) == closed(OutcomeView::UnknownHost(host)),
{
}

/// A request that fills the buffer without a terminator, or that ends
/// before its terminator, is answered with the status 59, and reading
/// stops: the caller is asked to read on only after a read that brought
/// bytes and left room in the buffer.
pub proof fn lemma_unterminated_request_is_refused(buffer: Seq<u8>, chunk: Seq<u8>, table: HostTable)
    requires
        !terminated(buffer + chunk),
    ensures
        (buffer + chunk).len() >= REQUEST_CAPACITY ==> connection_step(
            ConnectionStateView::Parsing { buffer },
            ConnectionEventView::Read(chunk),
            table,
        ) == bad_request(RequestError::RequestTooLarge),
        (buffer + chunk).len() < REQUEST_CAPACITY && chunk.len() == 0 ==> connection_step(
            ConnectionStateView::Parsing { buffer },
            ConnectionEventView::Read(chunk),
            table,
        ) == bad_request(RequestError::UnexpectedTermination),
        (buffer + chunk).len() < REQUEST_CAPACITY && chunk.len() > 0 ==> connection_step(
            ConnectionStateView::Parsing { buffer },
            ConnectionEventView::Read(chunk),
            table,
        ) == (
            ConnectionStateView::Parsing { buffer: buffer + chunk },
            ConnectionActionView::Read { limit: REQUEST_CAPACITY - (buffer + chunk).len() },
        ),
        header_of(bad_request_response()) == status_line(59, "Bad request"@),
{
}

/// A read that fails while the request is read is answered with the
/// status 59, like a stream that ends early. Once the response has been
/// sent, and when the caller reports any other failure, the connection
/// is closed, and it stays closed whatever comes.
pub proof fn lemma_connection_closes(
    state: ConnectionStateView,
    event: ConnectionEventView,
    table: HostTable,
)
    ensures
        state is Parsing && event is Failed ==> connection_step(state, event, table) == bad_request(
            RequestError::UnexpectedTermination,
        ),
        state is Responding || state is Closed || (event is Failed && !(state is Parsing))
            ==> connection_step(state, event, table).0 is Closed,
        connection_step(state, event, table).0 is Closed <==> connection_step(
            state,
            event,
            table,
        ).1 is Close,
{
}

/// A complete request for a host that the table knows is handled with
/// the configuration of that host: of the one declared last, where
/// several hosts answer to the name.
pub proof fn lemma_request_reaches_its_host(
    buffer: Seq<u8>,
    chunk: Seq<u8>,
    table: HostTable,
    url: UrlView,
    host: Seq<char>,
)
    requires
        progress(buffer + chunk, chunk.len() as int) == ReadProgress::Complete,
        parsed_request(buffer + chunk) == Ok::<_, RequestError>(url),
        url.host == Some(host),
        table.routes().contains_key(host),
    ensures
        0 <= table.routes()[host] < table.servers().len(),
        table.servers()[table.routes()[host]].names().contains(host),
        connection_step(
            ConnectionStateView::Parsing { buffer },
            ConnectionEventView::Read(chunk),
            table,
        ) == advanced(
            url,
            table.routes()[host],
            step(
                HandleStateView::Start,
                EventView::Begin,
                url,
                table.servers()[table.routes()[host]],
            ),
        ),
{
    crate::config::lemma_last_registration_wins(table.servers(), host);
}

} // verus!
