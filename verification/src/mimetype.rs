//! Content types by file extension.

use vstd::prelude::*;
use vstd::string::*;
use crate::text::str_eq;

verus! {

/// What `std::path::Path::extension` returns for `path`: the part of the
/// file name after its last dot, if the file name has a dot that is not
/// its first character.
pub uninterp spec fn path_extension(path: Seq<char>) -> Option<Seq<char>>;

/// The first media type that `mime_guess::from_ext` knows for
/// `extension`, as type and subtype; `None` where it knows none.
pub uninterp spec fn guessed_mimetype(extension: Seq<char>) -> Option<Seq<char>>;

/// `std::path::Path::extension` on a path given as text.
#[verifier::external_body]
fn extension_of(path: &str) -> (r: Option<&str>)
    ensures
        r is Some <==> path_extension(path@) is Some,
        r matches Some(e) ==> path_extension(path@) == Some(e@),
{
    std::path::Path::new(path).extension().and_then(|e| e.to_str())
}

/// `mime_guess::from_ext`, then `MimeGuess::first` and
/// `Mime::essence_str`: the first media type of the guess, without
/// parameters.
#[verifier::external_body]
fn guess_mimetype(extension: &str) -> (r: Option<String>)
    ensures
        r is Some <==> guessed_mimetype(extension@) is Some,
        r matches Some(m) ==> guessed_mimetype(extension@) == Some(m@),
{
    match mime_guess::from_ext(extension).first() {
        Some(mime) => Some(String::from(mime.essence_str())),
        None => None,
    }
}

/// The content type for a file extension by a table of four.
pub open spec fn known_mimetype(extension: Option<Seq<char>>) -> Seq<char> {
    match extension {
        None => "text/plain"@,
        Some(e) => if e == "gemini"@ || e == "gmi"@ {
            "text/gemini"@
        } else if e == "md"@ {
            "text/markdown"@
        } else if e == "txt"@ {
            "text/plain"@
        } else {
            "application/octet-stream"@
        },
    }
}

/// The content type for a file extension where the table of `mime_guess`
/// is asked: `guess` is what that table holds for the extension.
pub open spec fn inferred_mimetype(extension: Option<Seq<char>>, guess: Option<Seq<char>>) -> Seq<
    char,
> {
    match extension {
        None => "text/plain"@,
        Some(e) => if e == "gemini"@ || e == "gmi"@ {
            "text/gemini"@
        } else {
            match guess {
                Some(m) => m,
                None => "application/octet-stream"@,
            }
        },
    }
}

/// The content type for a file extension by a table of four: the
/// protocol's own document type for `gemini` and `gmi`, Markdown and
/// plain text for `md` and `txt`, an opaque binary type for every other
/// extension, and plain text where there is no extension.
pub fn get_mimetype(extension: Option<&str>) -> (r: &'static str)
    ensures
        r@ == known_mimetype(
            match extension {
                Some(e) => Some(e@),
                None => None,
            },
        ),
{
    match extension {
        Some(e) => {
            if str_eq(e, "gemini") || str_eq(e, "gmi") {
                "text/gemini"
            } else if str_eq(e, "md") {
                "text/markdown"
            } else if str_eq(e, "txt") {
                "text/plain"
            } else {
                "application/octet-stream"
            }
        },
        None => "text/plain",
    }
}

/// The content type for `extension`, given what the table of `mime_guess`
/// holds for it: the protocol's own document type for `gemini` and `gmi`,
/// else the guess, else an opaque binary type; plain text where there is
/// no extension.
pub fn mimetype_from_guess(extension: Option<&str>, guess: Option<String>) -> (r: String)
    ensures
        r@ == inferred_mimetype(
            match extension {
                Some(e) => Some(e@),
                None => None,
            },
            match guess {
                Some(m) => Some(m@),
                None => None,
            },
        ),
{
    match extension {
        None => "text/plain".to_owned(),
        Some(e) => {
            if str_eq(e, "gemini") || str_eq(e, "gmi") {
                "text/gemini".to_owned()
            } else {
                match guess {
                    Some(m) => m,
                    None => "application/octet-stream".to_owned(),
                }
            }
        },
    }
}

/// The content type that a file at `path` is served with: the one that
/// its extension stands for, by the protocol's own two extensions and
/// the table of `mime_guess`.
pub open spec fn path_mimetype(path: Seq<char>) -> Seq<char> {
    inferred_mimetype(
        path_extension(path),
        match path_extension(path) {
            Some(e) => guessed_mimetype(e),
            None => None,
        },
    )
}

/// The content type of the file at `path`, by its extension: the
/// protocol's own document type for `gemini` and `gmi`, else what the
/// table of `mime_guess` holds, else an opaque binary type; plain text
/// where the file name has no extension.
pub fn infer_mimetype(path: &str) -> (r: String)
    ensures
        r@ == path_mimetype(path@),
{
    let extension = extension_of(path);
    let guess = match extension {
        Some(e) => guess_mimetype(e),
        None => None,
    };
    mimetype_from_guess(extension, guess)
}

} // verus!
