//! Response status codes and the status line that opens every response.

use vstd::prelude::*;
use vstd::slice::*;
use vstd::utf8::*;
use crate::text::str_from_utf8;

verus! {

/// The smallest status code that the protocol allows.
pub const MIN_CODE: u8 = 10;

/// The largest status code that the protocol allows.
pub const MAX_CODE: u8 = 69;

/// The statuses that the protocol names.
#[derive(Debug, Clone, Copy, PartialEq, Eq, Structural)]
pub enum Status {
    Input,
    SensitiveInput,
    Success,
    RedirectTemporary,
    RedirectPermanent,
    TemporaryFailure,
    ServerUnavailable,
    CgiError,
    ProxyError,
    SlowDown,
    PermanentFailure,
    NotFound,
    Gone,
    ProxyRequestRefused,
    BadRequest,
    ClientCertificateRequired,
    CertificateNotAuthorized,
    CertificateNotValid,
}

/// The six classes of status codes, told apart by the leading digit.
#[derive(Debug, Clone, Copy, PartialEq, Eq, Structural)]
pub enum StatusClass {
    Input,
    Success,
    Redirect,
    TemporaryFailure,
    PermanentFailure,
    ClientCertificate,
}

/// Whether `code` lies in the range of status codes.
pub open spec fn valid_code(code: u8) -> bool {
    MIN_CODE <= code <= MAX_CODE
}

/// The two ASCII digits of a two-digit number.
pub open spec fn code_digits(code: u8) -> Seq<u8> {
    seq![(48 + code / 10) as u8, (48 + code % 10) as u8]
}

/// The two digits of a two-digit number, as text.
pub open spec fn code_text(code: u8) -> Seq<char> {
    seq![(48 + code / 10) as char, (48 + code % 10) as char]
}

/// The text of the two digits is encoded by the two ASCII digits.
pub proof fn lemma_code_text_bytes(code: u8)
    requires
        code < 100,
    ensures
        encode_utf8(code_text(code)) == code_digits(code),
{
    let text = code_text(code);
    assert(is_ascii_chars(text));
    is_ascii_chars_encode_utf8(text);
    assert(encode_utf8(text) =~= code_digits(code));
}

/// The status line for `code` and `meta`: the two digits, a space, the
/// meta string in UTF-8, and the line terminator.
pub open spec fn status_line(code: u8, meta: Seq<char>) -> Seq<u8> {
    code_digits(code) + seq![32u8] + encode_utf8(meta) + seq![13u8, 10u8]
}

/// What a status line says: its code and meta string, if the bytes are
/// one status line with a code in range.
pub open spec fn parsed_status_line(bytes: Seq<u8>) -> Option<(u8, Seq<char>)> {
    if bytes.len() >= 5 && 48 <= bytes[0] <= 57 && 48 <= bytes[1] <= 57 && bytes[2] == 32
        && bytes[bytes.len() - 2] == 13 && bytes[bytes.len() - 1] == 10 {
        let code = ((bytes[0] - 48) * 10 + (bytes[1] - 48)) as u8;
        let meta = bytes.subrange(3, bytes.len() - 2);
        if valid_code(code) && valid_utf8(meta) {
            Some((code, decode_utf8(meta)))
        } else {
            None
        }
    } else {
        None
    }
}

/// Whether `code` lies in the range of status codes, 10 to 69.
pub fn is_valid_code(code: u8) -> (r: bool)
    ensures
        r == valid_code(code),
{
    MIN_CODE <= code && code <= MAX_CODE
}

impl Status {
    /// The number of this status.
    pub open spec fn spec_code(&self) -> u8 {
        match self {
            Status::Input => 10,
            Status::SensitiveInput => 11,
            Status::Success => 20,
            Status::RedirectTemporary => 30,
            Status::RedirectPermanent => 31,
            Status::TemporaryFailure => 40,
            Status::ServerUnavailable => 41,
            Status::CgiError => 42,
            Status::ProxyError => 43,
            Status::SlowDown => 44,
            Status::PermanentFailure => 50,
            Status::NotFound => 51,
            Status::Gone => 52,
            Status::ProxyRequestRefused => 53,
            Status::BadRequest => 59,
            Status::ClientCertificateRequired => 60,
            Status::CertificateNotAuthorized => 61,
            Status::CertificateNotValid => 62,
        }
    }

    /// The name of this status.
    pub open spec fn spec_name(&self) -> Seq<char> {
        match self {
            Status::Input => "Input"@,
            Status::SensitiveInput => "SensitiveInput"@,
            Status::Success => "Success"@,
            Status::RedirectTemporary => "RedirectTemporary"@,
            Status::RedirectPermanent => "RedirectPermanent"@,
            Status::TemporaryFailure => "TemporaryFailure"@,
            Status::ServerUnavailable => "ServerUnavailable"@,
            Status::CgiError => "CgiError"@,
            Status::ProxyError => "ProxyError"@,
            Status::SlowDown => "SlowDown"@,
            Status::PermanentFailure => "PermanentFailure"@,
            Status::NotFound => "NotFound"@,
            Status::Gone => "Gone"@,
            Status::ProxyRequestRefused => "ProxyRequestRefused"@,
            Status::BadRequest => "BadRequest"@,
            Status::ClientCertificateRequired => "ClientCertificateRequired"@,
            Status::CertificateNotAuthorized => "CertificateNotAuthorized"@,
            Status::CertificateNotValid => "CertificateNotValid"@,
        }
    }

    /// The number of this status.
    #[verifier::when_used_as_spec(spec_code)]
    pub fn code(&self) -> (c: u8)
        ensures
            c == self.spec_code(),
            valid_code(c),
    {
        match self {
            Status::Input => 10,
            Status::SensitiveInput => 11,
            Status::Success => 20,
            Status::RedirectTemporary => 30,
            Status::RedirectPermanent => 31,
            Status::TemporaryFailure => 40,
            Status::ServerUnavailable => 41,
            Status::CgiError => 42,
            Status::ProxyError => 43,
            Status::SlowDown => 44,
            Status::PermanentFailure => 50,
            Status::NotFound => 51,
            Status::Gone => 52,
            Status::ProxyRequestRefused => 53,
            Status::BadRequest => 59,
            Status::ClientCertificateRequired => 60,
            Status::CertificateNotAuthorized => 61,
            Status::CertificateNotValid => 62,
        }
    }

    /// The named status with the number `code`, if there is one.
    pub fn from_code(code: u8) -> (r: Option<Status>)
        ensures
            match r {
                Some(s) => s.code() == code,
                None => forall|s: Status| s.code() != code,
            },
    {
        match code {
            10 => Some(Status::Input),
            11 => Some(Status::SensitiveInput),
            20 => Some(Status::Success),
            30 => Some(Status::RedirectTemporary),
            31 => Some(Status::RedirectPermanent),
            40 => Some(Status::TemporaryFailure),
            41 => Some(Status::ServerUnavailable),
            42 => Some(Status::CgiError),
            43 => Some(Status::ProxyError),
            44 => Some(Status::SlowDown),
            50 => Some(Status::PermanentFailure),
            51 => Some(Status::NotFound),
            52 => Some(Status::Gone),
            53 => Some(Status::ProxyRequestRefused),
            59 => Some(Status::BadRequest),
            60 => Some(Status::ClientCertificateRequired),
            61 => Some(Status::CertificateNotAuthorized),
            62 => Some(Status::CertificateNotValid),
            _ => None,
        }
    }

    /// The name of this status.
    pub fn name(&self) -> (r: &'static str)
        ensures
            r@ == self.spec_name(),
    {
        match self {
            Status::Input => "Input",
            Status::SensitiveInput => "SensitiveInput",
            Status::Success => "Success",
            Status::RedirectTemporary => "RedirectTemporary",
            Status::RedirectPermanent => "RedirectPermanent",
            Status::TemporaryFailure => "TemporaryFailure",
            Status::ServerUnavailable => "ServerUnavailable",
            Status::CgiError => "CgiError",
            Status::ProxyError => "ProxyError",
            Status::SlowDown => "SlowDown",
            Status::PermanentFailure => "PermanentFailure",
            Status::NotFound => "NotFound",
            Status::Gone => "Gone",
            Status::ProxyRequestRefused => "ProxyRequestRefused",
            Status::BadRequest => "BadRequest",
            Status::ClientCertificateRequired => "ClientCertificateRequired",
            Status::CertificateNotAuthorized => "CertificateNotAuthorized",
            Status::CertificateNotValid => "CertificateNotValid",
        }
    }

    /// The number of this status as text, as it is shown to a reader.
    pub fn to_string(&self) -> (r: String)
        ensures
            r@ == code_text(self.code()),
    {
        proof {
            lemma_code_text_bytes(self.code());
            encode_utf8_valid_utf8(code_text(self.code()));
            encode_utf8_decode_utf8(code_text(self.code()));
        }
        match str_from_utf8(self.to_bytes()) {
            Ok(text) => text.to_owned(),
            Err(_) => unreached(),
        }
    }

    /// The two ASCII digits of this status, as they stand on the wire
    /// (`48` is the digit zero).
    pub fn to_bytes(&self) -> (r: &'static [u8])
        ensures
            r@ == code_digits(self.code()),
    {
        let digits: &'static [u8; 2] = match self {
            Status::Input => &[49, 48],
            Status::SensitiveInput => &[49, 49],
            Status::Success => &[50, 48],
            Status::RedirectTemporary => &[51, 48],
            Status::RedirectPermanent => &[51, 49],
            Status::TemporaryFailure => &[52, 48],
            Status::ServerUnavailable => &[52, 49],
            Status::CgiError => &[52, 50],
            Status::ProxyError => &[52, 51],
            Status::SlowDown => &[52, 52],
            Status::PermanentFailure => &[53, 48],
            Status::NotFound => &[53, 49],
            Status::Gone => &[53, 50],
            Status::ProxyRequestRefused => &[53, 51],
            Status::BadRequest => &[53, 57],
            Status::ClientCertificateRequired => &[54, 48],
            Status::CertificateNotAuthorized => &[54, 49],
            Status::CertificateNotValid => &[54, 50],
        };
        assert(digits@ =~= code_digits(self.code()));
        digits
    }
}

/// A status code in the protocol's range with its meta string: a content
/// type, a redirect target, or a message for the reader.
#[derive(Debug, PartialEq, Eq)]
pub struct ResponseStatus {
    code: u8,
    meta: String,
}

impl Clone for ResponseStatus {
    fn clone(&self) -> (r: ResponseStatus)
        ensures
            r.spec_code() == self.spec_code(),
            r.spec_meta() == self.spec_meta(),
    {
        proof {
            use_type_invariant(self);
        }
        ResponseStatus { code: self.code, meta: self.meta.clone() }
    }
}

impl ResponseStatus {
    #[verifier::type_invariant]
    spec fn in_range(&self) -> bool {
        valid_code(self.code)
    }

    /// The status code.
    pub closed spec fn spec_code(&self) -> u8 {
        self.code
    }

    /// The meta string.
    pub closed spec fn spec_meta(&self) -> Seq<char> {
        self.meta@
    }

    /// Pairs `code` with `meta`, unless `code` is outside the range 10 to 69.
    pub fn new(code: u8, meta: String) -> (r: Option<ResponseStatus>)
        ensures
            r is Some <==> valid_code(code),
            r matches Some(s) ==> s.spec_code() == code && s.spec_meta() == meta@,
    {
        if is_valid_code(code) {
            Some(ResponseStatus { code, meta })
        } else {
            None
        }
    }

    /// The status code, which lies in the range 10 to 69.
    #[verifier::when_used_as_spec(spec_code)]
    pub fn code(&self) -> (c: u8)
        ensures
            c == self.spec_code(),
            valid_code(c),
    {
        proof {
            use_type_invariant(self);
        }
        self.code
    }

    /// The meta string.
    pub fn meta(&self) -> (m: &str)
        ensures
            m@ == self.spec_meta(),
    {
        self.meta.as_str()
    }

    /// The class that the leading digit of the code stands for.
    pub fn class(&self) -> (c: StatusClass)
        ensures
            c == class_of(self.spec_code()),
    {
        proof {
            use_type_invariant(self);
        }
        let tens: u8 = self.code / 10;
        if tens == 1 {
            StatusClass::Input
        } else if tens == 2 {
            StatusClass::Success
        } else if tens == 3 {
            StatusClass::Redirect
        } else if tens == 4 {
            StatusClass::TemporaryFailure
        } else if tens == 5 {
            StatusClass::PermanentFailure
        } else {
            StatusClass::ClientCertificate
        }
    }

    /// The status line as it stands on the wire.
    pub fn encode(&self) -> (r: Vec<u8>)
        ensures
            r@ == status_line(self.spec_code(), self.spec_meta()),
    {
        proof {
            use_type_invariant(self);
        }
        let mut line: Vec<u8> = Vec::new();
        line.push(48 + self.code / 10);
        line.push(48 + self.code % 10);
        line.push(32);
        line.extend_from_slice(self.meta.as_str().as_bytes());
        line.push(13);
        line.push(10);
        assert(line@ =~= status_line(self.code, self.meta@));
        line
    }

    /// Reads one status line: two digits that form a code in range, a
    /// space, the meta string in UTF-8, and the line terminator at the end.
    pub fn decode(bytes: &[u8]) -> (r: Option<ResponseStatus>)
        ensures
            match r {
                Some(s) => parsed_status_line(bytes@) == Some((s.spec_code(), s.spec_meta())),
                None => parsed_status_line(bytes@) is None,
            },
    {
        let n = bytes.len();
        if n < 5 {
            return None;
        }
        let tens: u8 = bytes[0];
        let ones: u8 = bytes[1];
        if tens < 48 || tens > 57 || ones < 48 || ones > 57 || bytes[2] != 32 || bytes[n - 2] != 13
            || bytes[n - 1] != 10 {
            return None;
        }
        let code: u8 = (tens - 48) * 10 + (ones - 48);
        if !is_valid_code(code) {
            return None;
        }
        match str_from_utf8(slice_subrange(bytes, 3, n - 2)) {
            Ok(meta) => Some(ResponseStatus { code, meta: meta.to_owned() }),
            Err(_) => None,
        }
    }
}

/// The class of a status code: what its leading digit stands for.
pub open spec fn class_of(code: u8) -> StatusClass {
    if code / 10 == 1 {
        StatusClass::Input
    } else if code / 10 == 2 {
        StatusClass::Success
    } else if code / 10 == 3 {
        StatusClass::Redirect
    } else if code / 10 == 4 {
        StatusClass::TemporaryFailure
    } else if code / 10 == 5 {
        StatusClass::PermanentFailure
    } else {
        StatusClass::ClientCertificate
    }
}

/// Reading a status line that was written for a code in range gives back
/// that code and that meta string, whatever the meta string holds.
pub proof fn lemma_status_line_round_trip(code: u8, meta: Seq<char>)
    requires
        valid_code(code),
    ensures
        parsed_status_line(status_line(code, meta)) == Some((code, meta)),
{
    let line = status_line(code, meta);
    let body = encode_utf8(meta);
    assert(line.len() == body.len() + 5);
    assert(line[0] == 48 + code / 10);
    assert(line[1] == 48 + code % 10);
    assert(line[2] == 32);
    assert(line[line.len() - 2] == 13);
    assert(line[line.len() - 1] == 10);
    assert(line.subrange(3, line.len() - 2) =~= body);
    encode_utf8_valid_utf8(meta);
    encode_utf8_decode_utf8(meta);
}

/// Every named status has a code in the protocol's range, and no two
/// share one.
pub proof fn lemma_named_codes(a: Status, b: Status)
    ensures
        valid_code(a.spec_code()),
        a.spec_code() == b.spec_code() ==> a == b,
{
}

} // verus!
