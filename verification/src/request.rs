//! One request: framing and parsing it, and planning the response step
//! by step, with every question to the filesystem left to the caller.

use vstd::prelude::*;
use vstd::slice::*;
use vstd::string::*;
use vstd::utf8::*;
use crate::config::ServerConfig;
use crate::listing::{generate_index, index_text, DirEntry};
use crate::mimetype::{infer_mimetype, path_mimetype};
use crate::paths::{
    below_root, index_allowed, is_index_allowed, join_path, joined_path, lemma_index_below_root,
    resolve_path, resolved_path,
};
use crate::rules::{apply_redirects, auto_indexed, is_auto_indexed, redirected, rewrite_url, rewritten};
use crate::status::{status_line, Status};
use crate::text::str_from_utf8;
use crate::url::{parsed_url, percent_decoded_text, url_with_path, RequestUrl, UrlView, MAX_PATH_BYTES};

verus! {

/// The most bytes that a request may have, its terminator included.
pub const REQUEST_CAPACITY: usize = 1026;

/// Why no request could be read.
#[derive(Debug, Clone, Copy, PartialEq, Eq, Structural)]
pub enum RequestError {
    /// The stream ended, or a read failed, before the terminator came.
    UnexpectedTermination,
    /// The buffer was full before the terminator came.
    RequestTooLarge,
    /// The line is no UTF-8 text or no absolute URL.
    MalformedRequest,
}

/// Where the reading of a request stands after a read.
#[derive(Debug, Clone, Copy, PartialEq, Eq, Structural)]
pub enum ReadProgress {
    /// More bytes are needed.
    Continue,
    /// The bytes read end with the terminator.
    Complete,
    /// No request will come of this stream.
    Failed(RequestError),
}

/// Whether `buffer` ends with the terminator of a request, `\r\n`.
pub open spec fn terminated(buffer: Seq<u8>) -> bool {
    buffer.len() >= 2 && buffer[buffer.len() - 2] == 13 && buffer[buffer.len() - 1] == 10
}

/// The bytes of `buffer` before the terminator.
pub open spec fn request_line(buffer: Seq<u8>) -> Seq<u8> {
    buffer.take(buffer.len() - 2)
}

/// Where the reading stands when `buffer` holds all bytes read so far and
/// the last read brought `read_count` of them.
pub open spec fn progress(buffer: Seq<u8>, read_count: int) -> ReadProgress {
    if buffer.len() > REQUEST_CAPACITY {
        ReadProgress::Failed(RequestError::RequestTooLarge)
    } else if terminated(buffer) {
        ReadProgress::Complete
    } else if buffer.len() == REQUEST_CAPACITY {
        ReadProgress::Failed(RequestError::RequestTooLarge)
    } else if read_count == 0 {
        ReadProgress::Failed(RequestError::UnexpectedTermination)
    } else {
        ReadProgress::Continue
    }
}

/// The request that `buffer` holds when no more bytes will come: the URL
/// that the line before the terminator parses to.
pub open spec fn parsed_request(buffer: Seq<u8>) -> Result<UrlView, RequestError> {
    match progress(buffer, 0) {
        ReadProgress::Failed(e) => Err(e),
        _ => if !valid_utf8(request_line(buffer)) {
            Err(RequestError::MalformedRequest)
        } else {
            match parsed_url(decode_utf8(request_line(buffer))) {
                Some(url) => Ok(url),
                None => Err(RequestError::MalformedRequest),
            }
        },
    }
}

/// Whether `buffer` ends with the terminator of a request.
pub fn is_terminated(buffer: &[u8]) -> (r: bool)
    ensures
        r == terminated(buffer@),
{
    let n = buffer.len();
    n >= 2 && buffer[n - 2] == 13 && buffer[n - 1] == 10
}

/// Decides, after a read that brought `read_count` bytes into `buffer`,
/// whether the request is complete, whether to read on, or why to give
/// up: a terminator completes the request; a full buffer without one,
/// or a read that brought nothing, ends the reading.
pub fn read_progress(buffer: &[u8], read_count: usize) -> (r: ReadProgress)
    ensures
        r == progress(buffer@, read_count as int),
        r == ReadProgress::Continue ==> buffer@.len() < REQUEST_CAPACITY && read_count > 0,
{
    if buffer.len() > REQUEST_CAPACITY {
        ReadProgress::Failed(RequestError::RequestTooLarge)
    } else if is_terminated(buffer) {
        ReadProgress::Complete
    } else if buffer.len() == REQUEST_CAPACITY {
        ReadProgress::Failed(RequestError::RequestTooLarge)
    } else if read_count == 0 {
        ReadProgress::Failed(RequestError::UnexpectedTermination)
    } else {
        ReadProgress::Continue
    }
}

/// Parses the request in `buffer`, which holds every byte that was read:
/// the bytes before the terminator must be UTF-8 and an absolute URL.
/// Neither the scheme nor the host is looked at.
pub fn parse(buffer: &[u8]) -> (r: Result<RequestUrl, RequestError>)
    ensures
        match parsed_request(buffer@) {
            Ok(parsed) => r matches Ok(url) && url@ == parsed,
            Err(e) => r matches Err(error) && error == e,
        },
{
    match read_progress(buffer, 0) {
        ReadProgress::Failed(e) => Err(e),
        _ => {
            let line = slice_subrange(buffer, 0, buffer.len() - 2);
            assert(line@ == request_line(buffer@));
            match str_from_utf8(line) {
                Ok(text) => match RequestUrl::parse(text) {
                    Some(url) => Ok(url),
                    None => Err(RequestError::MalformedRequest),
                },
                Err(_) => Err(RequestError::MalformedRequest),
            }
        },
    }
}

/// The status line for `status` and `meta`, as it is sent.
pub fn send_header(status: Status, meta: &str) -> (r: Vec<u8>)
    ensures
        r@ == status_line(status.code(), meta@),
{
    let mut line: Vec<u8> = Vec::new();
    line.extend_from_slice(status.to_bytes());
    line.push(32);
    line.extend_from_slice(meta.as_bytes());
    line.push(13);
    line.push(10);
    assert(line@ =~= status_line(status.code(), meta@));
    line
}

/// Why a request could not be answered.
#[derive(Debug, Clone, PartialEq, Eq)]
pub enum HandleError {
    /// The path of the URL, percent-decoded, is no UTF-8.
    PathEncoding,
    /// A redirect target that is no URL is too long to be made the path
    /// of the request URL.
    RedirectTooLong,
    /// The name of a directory entry cannot be joined to the request URL.
    UnlinkableEntry(String),
    /// The event does not answer what was asked.
    UnexpectedEvent,
}

/// A response: the status line and what follows it.
#[derive(Debug, Clone, PartialEq, Eq)]
pub enum Response {
    /// The status line alone.
    Header { status: Status, meta: String },
    /// Success with the content type `mimetype`, then the bytes of the
    /// file at `path`.
    File { path: String, mimetype: String },
    /// Success with the protocol's own document type, then `text`.
    Index { text: String },
}

/// What the caller is to do next.
#[derive(Debug, Clone, PartialEq, Eq)]
pub enum Action {
    /// Find out whether the path names a directory, and answer with
    /// `Event::Directory`.
    CheckDirectory(String),
    /// Find out whether anything exists at the path, and answer with
    /// `Event::Exists`.
    CheckExists(String),
    /// Read the entries of the directory at the path, and answer with
    /// `Event::Entries`.
    ListDirectory(String),
    /// Send the response; the request is done.
    Respond(Response),
}

/// What the caller found out.
#[derive(Debug, Clone, PartialEq, Eq)]
pub enum Event {
    /// Nothing yet: the request is to be taken up.
    Begin,
    /// Whether the path asked about names a directory.
    Directory(bool),
    /// Whether anything exists at the path asked about.
    Exists(bool),
    /// The entries of the directory asked about.
    Entries(Vec<DirEntry>),
}

/// How far the handling of a request has come.
#[derive(Debug, Clone, PartialEq, Eq)]
pub enum HandleState {
    /// The request has not been looked at.
    Start,
    /// Asked whether `file_path`, which `url_path` resolves to, is a
    /// directory.
    Classifying { url_path: String, file_path: String },
    /// Asked whether the index file number `next` exists in `dir_path`.
    ProbingIndex { url_path: String, dir_path: String, next: usize },
    /// Asked for the entries of `dir_path`.
    Listing { dir_path: String },
    /// Asked whether `file_path`, which is no directory, exists.
    ProbingFile { file_path: String },
    /// The response has been decided.
    Done,
}

/// A `HandleError`, with text in place of its string.
pub ghost enum HandleErrorView {
    PathEncoding,
    RedirectTooLong,
    UnlinkableEntry(Seq<char>),
    UnexpectedEvent,
}

/// A `Response`, with texts in place of its strings.
pub ghost enum ResponseView {
    Header { status: Status, meta: Seq<char> },
    File { path: Seq<char>, mimetype: Seq<char> },
    Index { text: Seq<char> },
}

/// An `Action`, with text in place of its string.
pub ghost enum ActionView {
    CheckDirectory(Seq<char>),
    CheckExists(Seq<char>),
    ListDirectory(Seq<char>),
    Respond(ResponseView),
}

/// An `Event`, with a sequence in place of its vector.
pub ghost enum EventView {
    Begin,
    Directory(bool),
    Exists(bool),
    Entries(Seq<DirEntry>),
}

/// A `HandleState`, with texts in place of its strings.
pub ghost enum HandleStateView {
    Start,
    Classifying { url_path: Seq<char>, file_path: Seq<char> },
    ProbingIndex { url_path: Seq<char>, dir_path: Seq<char>, next: int },
    Listing { dir_path: Seq<char> },
    ProbingFile { file_path: Seq<char> },
    Done,
}

impl View for HandleError {
    type V = HandleErrorView;

    open spec fn view(&self) -> HandleErrorView {
        match self {
            HandleError::PathEncoding => HandleErrorView::PathEncoding,
            HandleError::RedirectTooLong => HandleErrorView::RedirectTooLong,
            HandleError::UnlinkableEntry(name) => HandleErrorView::UnlinkableEntry(name@),
            HandleError::UnexpectedEvent => HandleErrorView::UnexpectedEvent,
        }
    }
}

impl View for Response {
    type V = ResponseView;

    open spec fn view(&self) -> ResponseView {
        match self {
            Response::Header { status, meta } => ResponseView::Header { status: *status, meta: meta@ },
            Response::File { path, mimetype } => ResponseView::File { path: path@, mimetype: mimetype@ },
            Response::Index { text } => ResponseView::Index { text: text@ },
        }
    }
}

impl View for Action {
    type V = ActionView;

    open spec fn view(&self) -> ActionView {
        match self {
            Action::CheckDirectory(path) => ActionView::CheckDirectory(path@),
            Action::CheckExists(path) => ActionView::CheckExists(path@),
            Action::ListDirectory(path) => ActionView::ListDirectory(path@),
            Action::Respond(response) => ActionView::Respond(response@),
        }
    }
}

impl View for Event {
    type V = EventView;

    open spec fn view(&self) -> EventView {
        match self {
            Event::Begin => EventView::Begin,
            Event::Directory(is_dir) => EventView::Directory(*is_dir),
            Event::Exists(found) => EventView::Exists(*found),
            Event::Entries(entries) => EventView::Entries(entries@),
        }
    }
}

impl View for HandleState {
    type V = HandleStateView;

    open spec fn view(&self) -> HandleStateView {
        match self {
            HandleState::Start => HandleStateView::Start,
            HandleState::Classifying { url_path, file_path } => HandleStateView::Classifying {
                url_path: url_path@,
                file_path: file_path@,
            },
            HandleState::ProbingIndex { url_path, dir_path, next } => HandleStateView::ProbingIndex {
                url_path: url_path@,
                dir_path: dir_path@,
                next: *next as int,
            },
            HandleState::Listing { dir_path } => HandleStateView::Listing { dir_path: dir_path@ },
            HandleState::ProbingFile { file_path } => HandleStateView::ProbingFile {
                file_path: file_path@,
            },
            HandleState::Done => HandleStateView::Done,
        }
    }
}

impl Response {
    /// The status that the response opens with.
    pub open spec fn spec_status(&self) -> Status {
        status_of(self@)
    }

    /// The status that the response opens with.
    #[verifier::when_used_as_spec(spec_status)]
    pub fn status(&self) -> (r: Status)
        ensures
            r == status_of(self@),
    {
        match self {
            Response::Header { status, .. } => *status,
            _ => Status::Success,
        }
    }

    /// The status line of the response, as it is sent.
    pub fn header(&self) -> (r: Vec<u8>)
        ensures
            r@ == header_of(self@),
    {
        match self {
            Response::Header { status, meta } => send_header(*status, meta.as_str()),
            Response::File { mimetype, .. } => send_header(Status::Success, mimetype.as_str()),
            Response::Index { .. } => send_header(Status::Success, "text/gemini"),
        }
    }
}

/// The status that a response opens with: success where a file or a
/// listing follows.
pub open spec fn status_of(response: ResponseView) -> Status {
    match response {
        ResponseView::Header { status, .. } => status,
        _ => Status::Success,
    }
}

/// The status line of a response: a file is announced with its content
/// type, a listing with the protocol's own document type.
pub open spec fn header_of(response: ResponseView) -> Seq<u8> {
    match response {
        ResponseView::Header { status, meta } => status_line(status.code(), meta),
        ResponseView::File { mimetype, .. } => status_line(Status::Success.code(), mimetype),
        ResponseView::Index { .. } => status_line(Status::Success.code(), "text/gemini"@),
    }
}

/// One step of handling a request: the state that follows and what to do
/// next, or why the request cannot be answered.
pub type Handled = Result<(HandleState, Action), HandleError>;

/// One step of handling a request, in the terms of contracts.
pub type HandledView = Result<(HandleStateView, ActionView), HandleErrorView>;

/// What a step of handling says, in the terms of contracts.
pub open spec fn handled_view(r: Handled) -> HandledView {
    match r {
        Ok((state, action)) => Ok((state@, action@)),
        Err(e) => Err(e@),
    }
}

/// Whether `text` ends with a separator.
pub open spec fn ends_with_slash(text: Seq<char>) -> bool {
    text.len() > 0 && text.last() == '/'
}

/// The step that ends the handling with the response `response`.
pub open spec fn respond(response: ResponseView) -> HandledView {
    Ok((HandleStateView::Done, ActionView::Respond(response)))
}

/// The response that serves the file at `path`, with the content type
/// that its extension stands for.
pub open spec fn file_response(path: Seq<char>) -> ResponseView {
    ResponseView::File { path, mimetype: path_mimetype(path) }
}

/// The response that says that nothing was found.
pub open spec fn not_found() -> ResponseView {
    ResponseView::Header { status: Status::NotFound, meta: "File not found"@ }
}

/// Where a redirect with the target `target` leads: to the target as it
/// stands if it is an absolute URL, else to the request URL with the
/// target as its path; `None` where the target is too long for that.
pub open spec fn redirect_location(url: UrlView, target: Seq<char>) -> Option<Seq<char>> {
    match parsed_url(target) {
        Some(_) => Some(target),
        None => if encode_utf8(url.source).len() <= MAX_PATH_BYTES && encode_utf8(target).len()
            <= MAX_PATH_BYTES {
            Some(url_with_path(url.source, target))
        } else {
            None
        },
    }
}

/// The step for the rewritten path `url_path` that no redirect rule
/// matches: the path is resolved below the document root of the host; a
/// path that leads above the root finds nothing, and of any other the
/// caller is asked whether it names a directory.
pub open spec fn targeted(config: ServerConfig, url_path: Seq<char>) -> HandledView {
    match resolved_path(config.server_root@, url_path) {
        Some(file_path) => Ok(
            (
                HandleStateView::Classifying { url_path, file_path },
                ActionView::CheckDirectory(file_path),
            ),
        ),
        None => respond(not_found()),
    }
}

/// The step for a redirect to `location`: a permanent redirect, unless
/// the target was too long to find the location.
pub open spec fn redirecting(location: Option<Seq<char>>) -> HandledView {
    match location {
        Some(location) => respond(
            ResponseView::Header { status: Status::RedirectPermanent, meta: location },
        ),
        None => Err(HandleErrorView::RedirectTooLong),
    }
}

/// The first step: the path of the URL is percent-decoded and rewritten.
/// If a redirect rule matches the rewritten path, the response is a
/// permanent redirect, and the filesystem is not asked. Else the path
/// is resolved below the document root.
pub open spec fn begun(url: UrlView, config: ServerConfig) -> HandledView {
    match percent_decoded_text(url.path) {
        None => Err(HandleErrorView::PathEncoding),
        Some(decoded) => {
            let url_path = rewritten(decoded, config.rewrite_rules@);
            match redirected(url_path, config.redirect_rules@) {
                Some(target) => redirecting(redirect_location(url, target)),
                None => targeted(config, url_path),
            }
        },
    }
}

/// The place of the first index file of the host, from the place `from`
/// on, that may be tried in the directory that `url_path` names: whose
/// name does not begin with a separator and does not lead above the
/// document root. The number of index files, if there is none.
pub open spec fn next_candidate(config: ServerConfig, url_path: Seq<char>, from: int) -> int
    decreases config.index@.len() - from,
{
    if !(0 <= from < config.index@.len()) {
        config.index@.len() as int
    } else if index_allowed(url_path, config.index@[from]@) {
        from
    } else {
        next_candidate(config, url_path, from + 1)
    }
}

/// The step for a directory whose index files before the place `next`
/// do not exist: the caller is asked for the next index file, in the
/// order of the configuration, that lies below the document root; when
/// none is left, the directory is listed if the rewritten path matches
/// a pattern that allows it, and forbidden otherwise.
pub open spec fn probe_index(
    config: ServerConfig,
    url_path: Seq<char>,
    dir_path: Seq<char>,
    next: int,
) -> HandledView {
    let candidate = next_candidate(config, url_path, next);
    if 0 <= candidate < config.index@.len() {
        Ok(
            (
                HandleStateView::ProbingIndex { url_path, dir_path, next: candidate },
                ActionView::CheckExists(joined_path(dir_path, config.index@[candidate]@)),
            ),
        )
    } else if auto_indexed(url_path, config.autoindex_rules@) {
        Ok((HandleStateView::Listing { dir_path }, ActionView::ListDirectory(dir_path)))
    } else {
        respond(ResponseView::Header { status: Status::TemporaryFailure, meta: "Forbidden"@ })
    }
}

/// The step after the caller said whether `file_path` is a directory,
/// for a request with the URL `url_text`. A
/// directory requested without a separator at the end of the URL is
/// answered with a permanent redirect to the URL with the separator, and
/// nothing more is asked; else its index files are tried. Of a path
/// that is no directory the caller is asked whether it exists.
pub open spec fn classified(
    url_text: Seq<char>,
    config: ServerConfig,
    url_path: Seq<char>,
    file_path: Seq<char>,
    is_dir: bool,
) -> HandledView {
    if !is_dir {
        Ok((HandleStateView::ProbingFile { file_path }, ActionView::CheckExists(file_path)))
    } else if !ends_with_slash(url_text) {
        respond(
            ResponseView::Header { status: Status::RedirectPermanent, meta: url_text + "/"@ },
        )
    } else {
        probe_index(config, url_path, file_path, 0)
    }
}

/// The step after the caller said whether the index file number `next`
/// exists: the first that exists is served. An index file that does
/// not lie below the document root was not asked about, and an answer
/// about it is out of turn.
pub open spec fn index_probed(
    config: ServerConfig,
    url_path: Seq<char>,
    dir_path: Seq<char>,
    next: int,
    found: bool,
) -> HandledView {
    if !(0 <= next < config.index@.len()) || !index_allowed(url_path, config.index@[next]@) {
        Err(HandleErrorView::UnexpectedEvent)
    } else if found {
        respond(file_response(joined_path(dir_path, config.index@[next]@)))
    } else {
        probe_index(config, url_path, dir_path, next + 1)
    }
}

/// The step after the caller read the directory: the listing is the
/// response.
pub open spec fn listed(url: UrlView, entries: Seq<DirEntry>) -> HandledView {
    match index_text(url, entries) {
        Ok(text) => respond(ResponseView::Index { text }),
        Err(name) => Err(HandleErrorView::UnlinkableEntry(name)),
    }
}

/// The step after the caller said whether `file_path` exists.
pub open spec fn file_probed(file_path: Seq<char>, found: bool) -> HandledView {
    if found {
        respond(file_response(file_path))
    } else {
        respond(not_found())
    }
}

/// One step of handling the request for `url` on the host with the
/// configuration `config`: from the state and what the caller found out
/// to the next state and what the caller is to do. An event that does
/// not answer what the state asked is an error.
pub open spec fn step(
    state: HandleStateView,
    event: EventView,
    url: UrlView,
    config: ServerConfig,
) -> HandledView {
    match (state, event) {
        (HandleStateView::Start, EventView::Begin) => begun(url, config),
        (
            HandleStateView::Classifying { url_path, file_path },
            EventView::Directory(is_dir),
        ) => classified(url.text, config, url_path, file_path, is_dir),
        (
            HandleStateView::ProbingIndex { url_path, dir_path, next },
            EventView::Exists(found),
        ) => index_probed(config, url_path, dir_path, next, found),
        (HandleStateView::Listing { dir_path }, EventView::Entries(entries)) => listed(url, entries),
        (HandleStateView::ProbingFile { file_path }, EventView::Exists(found)) => file_probed(
            file_path,
            found,
        ),
        _ => Err(HandleErrorView::UnexpectedEvent),
    }
}

/// Whether `text` ends with a separator.
pub fn has_trailing_slash(text: &str) -> (r: bool)
    ensures
        r == ends_with_slash(text@),
{
    let n = text.unicode_len();
    n > 0 && text.get_char(n - 1) == '/'
}

/// The response that serves the file at `path`, with the content type
/// that its extension stands for.
pub fn send_file(path: String) -> (r: Response)
    ensures
        r@ == file_response(path@),
{
    let mimetype = infer_mimetype(path.as_str());
    Response::File { path, mimetype }
}

fn respond_with(response: Response) -> (r: Handled)
    ensures
        handled_view(r) == respond(response@),
{
    Ok((HandleState::Done, Action::Respond(response)))
}

fn respond_not_found() -> (r: Handled)
    ensures
        handled_view(r) == respond(not_found()),
{
    respond_with(Response::Header { status: Status::NotFound, meta: "File not found".to_owned() })
}

fn locate_redirect(request_url: &RequestUrl, target: &str) -> (r: Option<String>)
    ensures
        r is Some <==> redirect_location(request_url@, target@) is Some,
        r matches Some(location) ==> redirect_location(request_url@, target@) == Some(location@),
{
    match RequestUrl::parse(target) {
        Some(_) => Some(target.to_owned()),
        None => request_url.with_path(target),
    }
}

/// The step for a redirect to `location`: a permanent redirect; with no
/// location, the request cannot be answered.
pub fn redirect(location: Option<String>) -> (r: Handled)
    ensures
        handled_view(r) == redirecting(
            match location {
                Some(location) => Some(location@),
                None => None,
            },
        ),
{
    match location {
        Some(location) => respond_with(
            Response::Header { status: Status::RedirectPermanent, meta: location },
        ),
        None => Err(HandleError::RedirectTooLong),
    }
}

/// The step for the rewritten path `url_path` that no redirect rule
/// matches: the caller is asked whether the path below the document
/// root that it resolves to is a directory; a path that leads above the
/// root finds nothing, and nothing is asked about it.
pub fn resolve_target(config: &ServerConfig, url_path: String) -> (r: Handled)
    ensures
        handled_view(r) == targeted(*config, url_path@),
{
    match resolve_path(config.server_root.as_str(), url_path.as_str()) {
        Some(file_path) => {
            let asked = file_path.clone();
            Ok((HandleState::Classifying { url_path, file_path }, Action::CheckDirectory(asked)))
        },
        None => respond_not_found(),
    }
}

/// The first step of handling the request for `request_url`.
pub fn begin(request_url: &RequestUrl, config: &ServerConfig) -> (r: Handled)
    ensures
        handled_view(r) == begun(request_url@, *config),
{
    let decoded = match request_url.decoded_path() {
        Some(decoded) => decoded,
        None => {
            return Err(HandleError::PathEncoding);
        },
    };
    let url_path = rewrite_url(decoded.as_str(), config.rewrite_rules.as_slice());
    match apply_redirects(url_path.as_str(), config.redirect_rules.as_slice()) {
        Some(target) => redirect(locate_redirect(request_url, target.as_str())),
        None => resolve_target(config, url_path),
    }
}

/// Where the index files of a host, from a place on, come to the first
/// that may be tried.
pub proof fn lemma_next_candidate(config: ServerConfig, url_path: Seq<char>, from: int)
    requires
        0 <= from <= config.index@.len(),
    ensures
        from <= next_candidate(config, url_path, from) <= config.index@.len(),
        next_candidate(config, url_path, from) < config.index@.len() ==> index_allowed(
            url_path,
            config.index@[next_candidate(config, url_path, from)]@,
        ),
        forall|skipped: int|
            from <= skipped < next_candidate(config, url_path, from) ==> !index_allowed(
                url_path,
                #[trigger] config.index@[skipped]@,
            ),
    decreases config.index@.len() - from,
{
    if from < config.index@.len() && !index_allowed(url_path, config.index@[from]@) {
        lemma_next_candidate(config, url_path, from + 1);
    }
}

/// The step for a directory whose index files before the place `next`
/// do not exist: the caller is asked for the next index file that lies
/// below the document root; when none is left, the directory is listed
/// if the rewritten path matches a pattern that allows it, and forbidden
/// otherwise.
pub fn next_index(config: &ServerConfig, url_path: String, dir_path: String, next: usize) -> (r:
    Handled)
    ensures
        handled_view(r) == probe_index(*config, url_path@, dir_path@, next as int),
{
    let mut candidate = next;
    while candidate < config.index.len() && !is_index_allowed(
        url_path.as_str(),
        config.index[candidate].as_str(),
    )
        invariant
            next <= candidate,
            next_candidate(*config, url_path@, next as int) == next_candidate(
                *config,
                url_path@,
                candidate as int,
            ),
        decreases config.index.len() - candidate,
    {
        candidate += 1;
    }
    if candidate < config.index.len() {
        let asked = join_path(dir_path.as_str(), config.index[candidate].as_str());
        Ok(
            (
                HandleState::ProbingIndex { url_path, dir_path, next: candidate },
                Action::CheckExists(asked),
            ),
        )
    } else if is_auto_indexed(url_path.as_str(), config.autoindex_rules.as_slice()) {
        let asked = dir_path.clone();
        Ok((HandleState::Listing { dir_path }, Action::ListDirectory(asked)))
    } else {
        respond_with(
            Response::Header { status: Status::TemporaryFailure, meta: "Forbidden".to_owned() },
        )
    }
}

/// The step after the caller said whether `file_path` is a directory,
/// for a request with the URL `url_text`: a directory requested without
/// a separator at the end of the URL is answered with a permanent
/// redirect to the URL with the separator; of any other directory the
/// index files are tried; of what is no directory the caller is asked
/// whether it exists.
pub fn classify(
    url_text: &str,
    config: &ServerConfig,
    url_path: String,
    file_path: String,
    is_dir: bool,
) -> (r: Handled)
    ensures
        handled_view(r) == classified(url_text@, *config, url_path@, file_path@, is_dir),
{
    if !is_dir {
        let asked = file_path.clone();
        Ok((HandleState::ProbingFile { file_path }, Action::CheckExists(asked)))
    } else if !has_trailing_slash(url_text) {
        let mut location = url_text.to_owned();
        location.append("/");
        respond_with(Response::Header { status: Status::RedirectPermanent, meta: location })
    } else {
        next_index(config, url_path, file_path, 0)
    }
}

/// The step after the caller said whether the index file at the place
/// `next` exists in `dir_path`: if it does, it is served; if not, the
/// next one is tried. An answer about an index file that does not
/// lie below the document root is out of turn.
pub fn answer_index(
    config: &ServerConfig,
    url_path: String,
    dir_path: String,
    next: usize,
    found: bool,
) -> (r: Handled)
    ensures
        handled_view(r) == index_probed(*config, url_path@, dir_path@, next as int, found),
{
    if next >= config.index.len() || !is_index_allowed(
        url_path.as_str(),
        config.index[next].as_str(),
    ) {
        Err(HandleError::UnexpectedEvent)
    } else if found {
        respond_with(send_file(join_path(dir_path.as_str(), config.index[next].as_str())))
    } else {
        next_index(config, url_path, dir_path, next + 1)
    }
}

/// The step after the caller said whether `file_path`, which is no
/// directory, exists: if it does, it is served; if not, nothing was
/// found.
pub fn answer_file(file_path: String, found: bool) -> (r: Handled)
    ensures
        handled_view(r) == file_probed(file_path@, found),
{
    if found {
        respond_with(send_file(file_path))
    } else {
        respond_not_found()
    }
}

/// The step after the caller read the directory: the listing of
/// `entries` is the response.
pub fn answer_entries(request_url: &RequestUrl, entries: Vec<DirEntry>) -> (r: Handled)
    ensures
        handled_view(r) == listed(request_url@, entries@),
{
    match generate_index(entries.as_slice(), request_url) {
        Ok(text) => respond_with(Response::Index { text }),
        Err(e) => Err(HandleError::UnlinkableEntry(e.name)),
    }
}

/// Takes the handling of a request one step on. The caller starts with
/// `HandleState::Start` and `Event::Begin`, does what the action says,
/// and comes back with the state and the event that answers the action,
/// until the action is a response.
pub fn handle(state: HandleState, event: Event, request_url: &RequestUrl, config: &ServerConfig) -> (r:
    Handled)
    ensures
        handled_view(r) == step(state@, event@, request_url@, *config),
{
    match state {
        HandleState::Start => match event {
            Event::Begin => begin(request_url, config),
            _ => Err(HandleError::UnexpectedEvent),
        },
        HandleState::Classifying { url_path, file_path } => match event {
            Event::Directory(is_dir) => classify(
                request_url.as_str(),
                config,
                url_path,
                file_path,
                is_dir,
            ),
            _ => Err(HandleError::UnexpectedEvent),
        },
        HandleState::ProbingIndex { url_path, dir_path, next } => match event {
            Event::Exists(found) => answer_index(config, url_path, dir_path, next, found),
            _ => Err(HandleError::UnexpectedEvent),
        },
        HandleState::Listing { dir_path } => match event {
            Event::Entries(entries) => answer_entries(request_url, entries),
            _ => Err(HandleError::UnexpectedEvent),
        },
        HandleState::ProbingFile { file_path } => match event {
            Event::Exists(found) => answer_file(file_path, found),
            _ => Err(HandleError::UnexpectedEvent),
        },
        HandleState::Done => Err(HandleError::UnexpectedEvent),
    }
}

/// A file that exists below the document root is served: when the path
/// of the URL decodes to a path that the rewrite rules leave as it is,
/// that no redirect rule matches and that resolves to `file_path`, then
/// the caller is asked whether `file_path` is a directory; told that it
/// is none, whether it exists; and told that it does, to send it, with
/// the status 20 and the content type that its extension stands for.
pub proof fn lemma_existing_file_is_served(
    url: UrlView,
    config: ServerConfig,
    url_path: Seq<char>,
    file_path: Seq<char>,
)
    requires
        percent_decoded_text(url.path) == Some(url_path),
        rewritten(url_path, config.rewrite_rules@) == url_path,
        redirected(url_path, config.redirect_rules@) is None,
        resolved_path(config.server_root@, url_path) == Some(file_path),
    ensures
        step(HandleStateView::Start, EventView::Begin, url, config) == Ok::<_, HandleErrorView>(
            (
                HandleStateView::Classifying { url_path, file_path },
                ActionView::CheckDirectory(file_path),
            ),
        ),
        step(
            HandleStateView::Classifying { url_path, file_path },
            EventView::Directory(false),
            url,
            config,
        ) == Ok::<_, HandleErrorView>(
            (HandleStateView::ProbingFile { file_path }, ActionView::CheckExists(file_path)),
        ),
        step(HandleStateView::ProbingFile { file_path }, EventView::Exists(true), url, config)
            == respond(file_response(file_path)),
        header_of(file_response(file_path)) == status_line(20, path_mimetype(file_path)),
{
}

/// A directory that is requested without a separator at the end of the
/// URL is answered with the status 31 and the same URL with a separator
/// behind it, and nothing is asked about what the directory holds.
pub proof fn lemma_directory_without_slash_redirects(
    url: UrlView,
    config: ServerConfig,
    url_path: Seq<char>,
    file_path: Seq<char>,
)
    requires
        !ends_with_slash(url.text),
    ensures
        step(
            HandleStateView::Classifying { url_path, file_path },
            EventView::Directory(true),
            url,
            config,
        ) == respond(
            ResponseView::Header { status: Status::RedirectPermanent, meta: url.text + "/"@ },
        ),
        header_of(
            ResponseView::Header { status: Status::RedirectPermanent, meta: url.text + "/"@ },
        ) == status_line(31, url.text + "/"@),
{
}

/// Whether the path that a state has asked about lies below `root`,
/// and is the path that the rewritten path of the state resolves to.
pub open spec fn state_below_root(root: Seq<char>, state: HandleStateView) -> bool {
    match state {
        HandleStateView::Classifying { url_path, file_path } => resolved_path(root, url_path)
            == Some(file_path),
        HandleStateView::ProbingIndex { url_path, dir_path, .. } => resolved_path(root, url_path)
            == Some(dir_path),
        HandleStateView::Listing { dir_path } => below_root(root, dir_path),
        HandleStateView::ProbingFile { file_path } => below_root(root, file_path),
        _ => true,
    }
}

/// Whether the path that an action names lies below `root`.
pub open spec fn action_below_root(root: Seq<char>, action: ActionView) -> bool {
    match action {
        ActionView::CheckDirectory(path) => below_root(root, path),
        ActionView::CheckExists(path) => below_root(root, path),
        ActionView::ListDirectory(path) => below_root(root, path),
        ActionView::Respond(ResponseView::File { path, .. }) => below_root(root, path),
        ActionView::Respond(_) => true,
    }
}

/// A path that a path resolves to lies below the root.
pub proof fn lemma_resolved_path_below_root(root: Seq<char>, url_path: Seq<char>)
    requires
        resolved_path(root, url_path) is Some,
    ensures
        below_root(root, resolved_path(root, url_path)->0),
{
    let rest = crate::paths::without_leading_slash(url_path);
    assert(resolved_path(root, url_path)->0 == joined_path(root, rest));
}

/// No request leads out of the document root, whatever the request and
/// whatever the configuration: from the first step on, every path that
/// the caller is asked about, and every file that it is told to send,
/// is the root joined with a path that does not begin with a separator
/// and that, followed from the root, never leads above it. The index
/// files that are tried are among these paths.
pub proof fn lemma_handling_stays_below_root(
    state: HandleStateView,
    event: EventView,
    url: UrlView,
    config: ServerConfig,
)
    requires
        state_below_root(config.server_root@, state),
    ensures
        step(state, event, url, config) matches Ok((next, action)) ==> state_below_root(
            config.server_root@,
            next,
        ) && action_below_root(config.server_root@, action),
{
    let root = config.server_root@;
    match (state, event) {
        (HandleStateView::Start, EventView::Begin) => {
            if let Ok((next, action)) = step(state, event, url, config) {
                if next is Classifying {
                    lemma_resolved_path_below_root(root, next->Classifying_url_path);
                }
            }
        },
        (HandleStateView::ProbingIndex { url_path, dir_path, next }, EventView::Exists(found)) => {
            if 0 <= next < config.index@.len() && index_allowed(url_path, config.index@[next]@) {
                lemma_resolved_path_below_root(root, url_path);
                lemma_index_below_root(root, url_path, config.index@[next]@);
                lemma_next_candidate(config, url_path, next + 1);
                let following = next_candidate(config, url_path, next + 1);
                if following < config.index@.len() {
                    lemma_index_below_root(root, url_path, config.index@[following]@);
                }
            }
        },
        (HandleStateView::Classifying { url_path, file_path }, EventView::Directory(is_dir)) => {
            lemma_resolved_path_below_root(root, url_path);
            lemma_next_candidate(config, url_path, 0);
            let first = next_candidate(config, url_path, 0);
            if first < config.index@.len() {
                lemma_index_below_root(root, url_path, config.index@[first]@);
            }
        },
        _ => {},
    }
}

/// Of the index files of a host, the first that exists is served: as
/// long as the caller says that an index file does not exist, it is
/// asked for the next one that lies below the document root, in the
/// order of the configuration, and when it says that one exists, that
/// one is the response.
pub proof fn lemma_first_existing_index_is_served(
    url: UrlView,
    config: ServerConfig,
    url_path: Seq<char>,
    dir_path: Seq<char>,
    first: int,
)
    requires
        0 <= first < config.index@.len(),
        index_allowed(url_path, config.index@[first]@),
    ensures
        forall|missing: int|
            0 <= missing < first && index_allowed(url_path, config.index@[missing]@)
                ==> #[trigger] step(
                HandleStateView::ProbingIndex { url_path, dir_path, next: missing },
                EventView::Exists(false),
                url,
                config,
            ) == Ok::<_, HandleErrorView>(
                (
                    HandleStateView::ProbingIndex {
                        url_path,
                        dir_path,
                        next: next_candidate(config, url_path, missing + 1),
                    },
                    ActionView::CheckExists(
                        joined_path(
                            dir_path,
                            config.index@[next_candidate(config, url_path, missing + 1)]@,
                        ),
                    ),
                ),
            ) && missing < next_candidate(config, url_path, missing + 1) <= first,
        step(
            HandleStateView::ProbingIndex { url_path, dir_path, next: first },
            EventView::Exists(true),
            url,
            config,
        ) == respond(file_response(joined_path(dir_path, config.index@[first]@))),
{
    assert forall|missing: int|
        0 <= missing < first && index_allowed(url_path, config.index@[missing]@)
            implies #[trigger] step(
        HandleStateView::ProbingIndex { url_path, dir_path, next: missing },
        EventView::Exists(false),
        url,
        config,
    ) == Ok::<_, HandleErrorView>(
        (
            HandleStateView::ProbingIndex {
                url_path,
                dir_path,
                next: next_candidate(config, url_path, missing + 1),
            },
            ActionView::CheckExists(
                joined_path(
                    dir_path,
                    config.index@[next_candidate(config, url_path, missing + 1)]@,
                ),
            ),
        ),
    ) && missing < next_candidate(config, url_path, missing + 1) <= first by {
        lemma_next_candidate(config, url_path, missing + 1);
    }
}

} // verus!
