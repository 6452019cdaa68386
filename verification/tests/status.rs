use gemini_server::request::send_header;
use gemini_server::status::{is_valid_code, ResponseStatus, Status, StatusClass};

const ALL: [(Status, u8); 18] = [
    (Status::Input, 10),
    (Status::SensitiveInput, 11),
    (Status::Success, 20),
    (Status::RedirectTemporary, 30),
    (Status::RedirectPermanent, 31),
    (Status::TemporaryFailure, 40),
    (Status::ServerUnavailable, 41),
    (Status::CgiError, 42),
    (Status::ProxyError, 43),
    (Status::SlowDown, 44),
    (Status::PermanentFailure, 50),
    (Status::NotFound, 51),
    (Status::Gone, 52),
    (Status::ProxyRequestRefused, 53),
    (Status::BadRequest, 59),
    (Status::ClientCertificateRequired, 60),
    (Status::CertificateNotAuthorized, 61),
    (Status::CertificateNotValid, 62),
];

#[test]
fn codes_of_the_named_statuses() {
    for (status, code) in ALL {
        assert_eq!(status.code(), code);
        assert_eq!(Status::from_code(code), Some(status));
        assert_eq!(status.to_bytes(), format!("{}", code).as_bytes());
        assert_eq!(status.to_string(), format!("{}", code));
        assert_eq!(status.name(), format!("{:?}", status));
    }
    assert_eq!(Status::NotFound.name(), "NotFound");
}

#[test]
fn codes_without_a_name() {
    assert_eq!(Status::from_code(0), None);
    assert_eq!(Status::from_code(12), None);
    assert_eq!(Status::from_code(54), None);
    assert_eq!(Status::from_code(69), None);
    assert_eq!(Status::from_code(255), None);
    let named = (0..=255u8).filter(|c| Status::from_code(*c).is_some()).count();
    assert_eq!(named, 18);
}

#[test]
fn codes_outside_the_range_are_rejected() {
    assert!(ResponseStatus::new(9, String::new()).is_none());
    assert!(ResponseStatus::new(70, String::new()).is_none());
    assert!(ResponseStatus::new(0, String::new()).is_none());
    assert!(ResponseStatus::new(255, String::new()).is_none());
    assert!(!is_valid_code(9));
    assert!(!is_valid_code(70));
}

#[test]
fn codes_at_the_boundaries_are_accepted() {
    let low = ResponseStatus::new(10, String::from("prompt")).unwrap();
    assert_eq!(low.code(), 10);
    assert_eq!(low.meta(), "prompt");
    let high = ResponseStatus::new(69, String::new()).unwrap();
    assert_eq!(high.code(), 69);
    assert!(is_valid_code(10));
    assert!(is_valid_code(69));
}

#[test]
fn classes_by_leading_digit() {
    let class = |code: u8| ResponseStatus::new(code, String::new()).unwrap().class();
    assert_eq!(class(10), StatusClass::Input);
    assert_eq!(class(19), StatusClass::Input);
    assert_eq!(class(20), StatusClass::Success);
    assert_eq!(class(31), StatusClass::Redirect);
    assert_eq!(class(44), StatusClass::TemporaryFailure);
    assert_eq!(class(59), StatusClass::PermanentFailure);
    assert_eq!(class(60), StatusClass::ClientCertificate);
    assert_eq!(class(69), StatusClass::ClientCertificate);
}

#[test]
fn status_line_on_the_wire() {
    let status = ResponseStatus::new(20, String::from("text/gemini")).unwrap();
    assert_eq!(status.encode(), b"20 text/gemini\r\n");
    let empty = ResponseStatus::new(59, String::new()).unwrap();
    assert_eq!(empty.encode(), b"59 \r\n");
    assert_eq!(send_header(Status::NotFound, "File not found"), b"51 File not found\r\n");
    assert_eq!(send_header(Status::Success, "text/gemini"), b"20 text/gemini\r\n");
    assert_eq!(send_header(Status::Input, "né"), "10 né\r\n".as_bytes());
}

#[test]
fn redirect_round_trip() {
    let meta = "gemini://host/path/";
    let sent = ResponseStatus::new(31, String::from(meta)).unwrap();
    let bytes = sent.encode();
    assert_eq!(bytes, b"31 gemini://host/path/\r\n");
    let read = ResponseStatus::decode(&bytes).unwrap();
    assert_eq!(read.code(), 31);
    assert_eq!(read.meta(), meta);
    assert_eq!(read, sent);
}

#[test]
fn every_code_round_trips() {
    for code in 10..=69u8 {
        for meta in ["", "x", "text/gemini; lang=de", "grüße ✓", "a\r\nb", " "] {
            let sent = ResponseStatus::new(code, String::from(meta)).unwrap();
            let read = ResponseStatus::decode(&sent.encode()).unwrap();
            assert_eq!(read.code(), code);
            assert_eq!(read.meta(), meta);
        }
    }
}

#[test]
fn what_is_no_status_line() {
    assert!(ResponseStatus::decode(b"").is_none());
    assert!(ResponseStatus::decode(b"20\r\n").is_none());
    assert!(ResponseStatus::decode(b"20 ok").is_none());
    assert!(ResponseStatus::decode(b"20 ok\n").is_none());
    assert!(ResponseStatus::decode(b"20-ok\r\n").is_none());
    assert!(ResponseStatus::decode(b"2x ok\r\n").is_none());
    assert!(ResponseStatus::decode(b"x0 ok\r\n").is_none());
    assert!(ResponseStatus::decode(b"09 ok\r\n").is_none());
    assert!(ResponseStatus::decode(b"70 ok\r\n").is_none());
    assert!(ResponseStatus::decode(b"20 \xff\r\n").is_none());
    assert!(ResponseStatus::decode(b"20 \r\n").is_some());
    assert!(ResponseStatus::decode(b"69 \r\n").is_some());
}
