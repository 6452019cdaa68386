use gemini_server::config::{load, BaseConfig, HostTable, RuleSettings, ServerSettings};
use gemini_server::connection::{handle_connection, ConnectionAction, ConnectionEvent, ConnectionState, Outcome};
use gemini_server::listing::DirEntry;
use gemini_server::request::{Action, Event, RequestError, Response};
use gemini_server::status::Status;
use std::collections::BTreeMap;

enum Node {
    File(&'static [u8]),
    Directory(Vec<(&'static str, bool)>),
}

struct World {
    nodes: BTreeMap<&'static str, Node>,
    questions: Vec<String>,
}

impl World {
    fn new(nodes: Vec<(&'static str, Node)>) -> World {
        World { nodes: nodes.into_iter().collect(), questions: vec![] }
    }

    fn answer(&mut self, action: &Action) -> Event {
        match action {
            Action::CheckDirectory(path) => {
                self.questions.push(format!("dir {}", path));
                Event::Directory(matches!(self.nodes.get(path.as_str()), Some(Node::Directory(_))))
            }
            Action::CheckExists(path) => {
                self.questions.push(format!("exists {}", path));
                Event::Exists(self.nodes.contains_key(path.as_str()))
            }
            Action::ListDirectory(path) => {
                self.questions.push(format!("list {}", path));
                match self.nodes.get(path.as_str()) {
                    Some(Node::Directory(entries)) => Event::Entries(
                        entries.iter().map(|(name, is_dir)| DirEntry { name: String::from(*name), is_dir: *is_dir }).collect(),
                    ),
                    _ => panic!("{} is no directory", path),
                }
            }
            Action::Respond(_) => unreachable!(),
        }
    }
}

fn table() -> HostTable {
    let rule = |pattern: &str, substitution: &str| RuleSettings { pattern: String::from(pattern), substitution: String::from(substitution) };
    let site = ServerSettings {
        server_name: vec![String::from("example.org"), String::from("localhost")],
        server_root: String::from("/srv/site"),
        index: vec![String::from("index.gmi"), String::from("index.gemini")],
        autoindex_rules: vec![String::from("^/pub/")],
        rewrite_rules: vec![rule("^/a/", "/b/"), rule("/b/x", "/c")],
        redirect_rules: vec![rule("^/moved/(.*)$", "/docs/$1"), rule("^/moved/", "/never/")],
    };
    let other = ServerSettings {
        server_name: vec![String::from("other.example"), String::from("localhost")],
        server_root: String::from("/srv/other/"),
        index: vec![],
        autoindex_rules: vec![String::from(".*")],
        rewrite_rules: vec![],
        redirect_rules: vec![],
    };
    let base = BaseConfig { listen_addr: String::new(), tls_certificate: String::new(), tls_certificate_key: String::new() };
    load(base, vec![site, other]).unwrap().1
}

fn world() -> World {
    World::new(vec![
        ("/srv/site/", Node::Directory(vec![("c", false), ("docs", true), ("pub", true)])),
        ("/srv/site/c", Node::File(b"rewritten")),
        ("/srv/site/docs", Node::Directory(vec![("index.gemini", false), ("page.gmi", false)])),
        ("/srv/site/docs/", Node::Directory(vec![("index.gemini", false), ("page.gmi", false)])),
        ("/srv/site/docs/index.gemini", Node::File(b"# Docs\n")),
        ("/srv/site/docs/page.gmi", Node::File(b"# Page\n")),
        ("/srv/site/pub/", Node::Directory(vec![("Banana", false), ("apple", false), ("Zoo", true)])),
        ("/srv/site/pub/Banana", Node::File(b"\x00\x01\x02")),
        ("/srv/other/", Node::Directory(vec![("b", false), ("A", true)])),
    ])
}

/// Runs one connection that receives `request` in chunks of `chunk`
/// bytes, and returns what was sent and how the connection ended.
fn serve(request: &[u8], chunk: usize, world: &mut World) -> (Vec<u8>, Outcome) {
    let table = table();
    let mut sent: Vec<u8> = vec![];
    let mut unread = request;
    let mut state = ConnectionState::Accepted;
    let mut event = ConnectionEvent::Connected;
    for _ in 0..10_000 {
        let (next, action) = handle_connection(state, event, &table);
        state = next;
        event = match action {
            ConnectionAction::Read { limit } => {
                assert!(limit > 0);
                let take = limit.min(chunk).min(unread.len());
                let bytes = unread[..take].to_vec();
                unread = &unread[take..];
                ConnectionEvent::Read(bytes)
            }
            ConnectionAction::Handle(Action::Respond(response)) => {
                assert!(sent.is_empty());
                sent.extend_from_slice(&response.header());
                match &response {
                    Response::Header { .. } => {}
                    Response::File { path, .. } => match world.nodes.get(path.as_str()) {
                        Some(Node::File(bytes)) => sent.extend_from_slice(bytes),
                        _ => panic!("{} is no file", path),
                    },
                    Response::Index { text } => sent.extend_from_slice(text.as_bytes()),
                }
                ConnectionEvent::Sent
            }
            ConnectionAction::Handle(question) => ConnectionEvent::Found(world.answer(&question)),
            ConnectionAction::Close(outcome) => {
                assert_eq!(state, ConnectionState::Closed);
                return (sent, outcome);
            }
        };
    }
    panic!("the connection does not end");
}

fn get(url: &str) -> (Vec<u8>, Outcome, Vec<String>) {
    let mut world = world();
    let request = format!("{}\r\n", url);
    let whole = serve(request.as_bytes(), usize::MAX, &mut world);
    for chunk in [1, 2, 7, 100] {
        let mut again = self::world();
        assert_eq!(serve(request.as_bytes(), chunk, &mut again), whole);
        assert_eq!(again.questions, world.questions);
    }
    (whole.0, whole.1, world.questions)
}

#[test]
fn an_existing_file_comes_with_its_bytes() {
    let (sent, outcome, questions) = get("gemini://example.org/docs/page.gmi");
    assert_eq!(sent, b"20 text/gemini\r\n# Page\n");
    assert_eq!(outcome, Outcome::Responded(Status::Success));
    assert_eq!(questions, ["dir /srv/site/docs/page.gmi", "exists /srv/site/docs/page.gmi"]);
    let (sent, _, _) = get("gemini://example.org/pub/Banana");
    assert_eq!(sent, b"20 text/plain\r\n\x00\x01\x02");
}

#[test]
fn a_directory_is_redirected_whatever_it_holds() {
    let (sent, outcome, questions) = get("gemini://example.org/docs");
    assert_eq!(sent, b"31 gemini://example.org/docs/\r\n");
    assert_eq!(outcome, Outcome::Responded(Status::RedirectPermanent));
    assert_eq!(questions, ["dir /srv/site/docs"]);
}

#[test]
fn index_files_are_tried_in_order() {
    let (sent, _, questions) = get("gemini://example.org/docs/");
    assert_eq!(sent, b"20 text/gemini\r\n# Docs\n");
    assert_eq!(questions, ["dir /srv/site/docs/", "exists /srv/site/docs/index.gmi", "exists /srv/site/docs/index.gemini"]);
}

#[test]
fn a_directory_is_listed_or_forbidden() {
    let (sent, outcome, questions) = get("gemini://example.org/pub/");
    assert_eq!(
        String::from_utf8(sent).unwrap(),
        "20 text/gemini\r\nIndex of gemini://example.org/pub/\n\n\
         => gemini://example.org/pub/Zoo/ Zoo/\n\
         => gemini://example.org/pub/apple apple\n\
         => gemini://example.org/pub/Banana Banana\n"
    );
    assert_eq!(outcome, Outcome::Responded(Status::Success));
    assert_eq!(questions.last().unwrap(), "list /srv/site/pub/");
    let (sent, outcome, _) = get("gemini://example.org/");
    assert_eq!(sent, b"40 Forbidden\r\n");
    assert_eq!(outcome, Outcome::Responded(Status::TemporaryFailure));
}

#[test]
fn rules_are_applied_before_the_filesystem_is_asked() {
    let (sent, _, questions) = get("gemini://example.org/a/x");
    assert_eq!(sent, b"20 text/plain\r\nrewritten");
    assert_eq!(questions, ["dir /srv/site/c", "exists /srv/site/c"]);
    let (sent, outcome, questions) = get("gemini://example.org/moved/page.gmi?x");
    assert_eq!(sent, b"31 gemini://example.org/docs/page.gmi?x\r\n");
    assert_eq!(outcome, Outcome::Responded(Status::RedirectPermanent));
    assert!(questions.is_empty());
}

#[test]
fn the_host_declared_last_answers() {
    let (sent, _, questions) = get("gemini://localhost/");
    assert_eq!(
        String::from_utf8(sent).unwrap(),
        "20 text/gemini\r\nIndex of gemini://localhost/\n\n=> gemini://localhost/A/ A/\n=> gemini://localhost/b b\n"
    );
    assert_eq!(questions, ["dir /srv/other/", "list /srv/other/"]);
    let (sent, _, _) = get("gemini://example.org/nothing");
    assert_eq!(sent, b"51 File not found\r\n");
}

#[test]
fn nothing_is_sent_to_an_unknown_host() {
    let (sent, outcome, questions) = get("gemini://unknown.example/docs/page.gmi");
    assert!(sent.is_empty());
    assert_eq!(outcome, Outcome::UnknownHost(String::from("unknown.example")));
    assert!(questions.is_empty());
}

#[test]
fn no_path_leaves_the_document_root() {
    for url in ["gemini://example.org/..%2Fother/b", "gemini://example.org/docs%2F..%2F..%2Fother%2Fb", "gemini://example.org/%2e%2e%2f%2e%2e%2fetc/passwd"] {
        let (sent, _, questions) = get(url);
        assert_eq!(sent, b"51 File not found\r\n", "{}", url);
        assert!(questions.is_empty(), "{}", url);
    }
}

#[test]
fn a_request_without_end_is_refused() {
    let mut world = world();
    let endless = vec![b'a'; 5000];
    for chunk in [1, 3, 1000, 5000] {
        let (sent, outcome) = serve(&endless, chunk, &mut world);
        assert_eq!(sent, b"59 Bad request\r\n");
        assert_eq!(outcome, Outcome::BadRequest(RequestError::RequestTooLarge));
    }
    let (sent, outcome) = serve(b"gemini://example.org/docs", 4, &mut world);
    assert_eq!(sent, b"59 Bad request\r\n");
    assert_eq!(outcome, Outcome::BadRequest(RequestError::UnexpectedTermination));
    assert!(world.questions.is_empty());
}
