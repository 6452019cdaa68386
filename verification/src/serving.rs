//! What a request is answered with, said at once: from the request, the
//! configuration of the host and what the filesystem holds to the
//! response. The steps of `handle`, answered truthfully, arrive at it.

use vstd::prelude::*;
use crate::config::ServerConfig;
use crate::listing::{index_text, DirEntry};
use crate::paths::{index_allowed, joined_path, resolved_path};
use crate::request::{
    begun, classified, ends_with_slash, file_probed, file_response, index_probed, listed,
    not_found, probe_index, redirect_location, respond, step, ActionView, EventView,
    HandleErrorView, HandleStateView, HandledView, ResponseView,
};
use crate::rules::{auto_indexed, redirected, rewritten};
use crate::status::Status;
use crate::url::{percent_decoded_text, UrlView};

verus! {

/// What the filesystem holds, as far as a request can ask.
pub ghost struct Filesystem {
    /// The paths that name directories.
    pub directories: Set<Seq<char>>,
    /// The paths that name anything else that exists.
    pub files: Set<Seq<char>>,
    /// The entries of every directory.
    pub entries: Map<Seq<char>, Seq<DirEntry>>,
}

/// A response, or why there is none.
pub type Served = Result<ResponseView, HandleErrorView>;

impl Filesystem {
    /// Whether `path` names a directory.
    pub open spec fn is_dir(self, path: Seq<char>) -> bool {
        self.directories.contains(path)
    }

    /// Whether anything exists at `path`.
    pub open spec fn holds(self, path: Seq<char>) -> bool {
        self.directories.contains(path) || self.files.contains(path)
    }

    /// The truthful answer to a question.
    pub open spec fn answer(self, action: ActionView) -> EventView {
        match action {
            ActionView::CheckDirectory(path) => EventView::Directory(self.is_dir(path)),
            ActionView::CheckExists(path) => EventView::Exists(self.holds(path)),
            ActionView::ListDirectory(path) => EventView::Entries(self.entries[path]),
            ActionView::Respond(_) => EventView::Begin,
        }
    }
}

/// The place of the first index file of the host, from the place `from`
/// on, that exists in the directory `dir_path`, which `url_path` names.
/// An index file that does not lie below the document root counts for
/// nothing.
pub open spec fn first_index(
    fs: Filesystem,
    config: ServerConfig,
    url_path: Seq<char>,
    dir_path: Seq<char>,
    from: int,
) -> Option<int>
    decreases config.index@.len() - from,
{
    if !(0 <= from < config.index@.len()) {
        None
    } else if index_allowed(url_path, config.index@[from]@) && fs.holds(
        joined_path(dir_path, config.index@[from]@),
    ) {
        Some(from)
    } else {
        first_index(fs, config, url_path, dir_path, from + 1)
    }
}

/// The response for a directory whose index files before `from` do not
/// exist: the first index file that exists and lies below the document
/// root; without one, the listing of
/// the directory where the rewritten path matches a pattern that allows
/// it, and a refusal where it does not.
pub open spec fn index_response(
    fs: Filesystem,
    url: UrlView,
    config: ServerConfig,
    url_path: Seq<char>,
    dir_path: Seq<char>,
    from: int,
) -> Served {
    match first_index(fs, config, url_path, dir_path, from) {
        Some(place) => Ok(file_response(joined_path(dir_path, config.index@[place]@))),
        None => if auto_indexed(url_path, config.autoindex_rules@) {
            match index_text(url, fs.entries[dir_path]) {
                Ok(text) => Ok(ResponseView::Index { text }),
                Err(name) => Err(HandleErrorView::UnlinkableEntry(name)),
            }
        } else {
            Ok(ResponseView::Header { status: Status::TemporaryFailure, meta: "Forbidden"@ })
        },
    }
}

/// The response for the rewritten path `url_path` that resolves to
/// `file_path`: for a directory, a redirect to the URL with a separator
/// at its end if it has none, else what its index files or its listing
/// give; for anything else that exists, the file; else, not found.
pub open spec fn target_response(
    fs: Filesystem,
    url: UrlView,
    config: ServerConfig,
    url_path: Seq<char>,
    file_path: Seq<char>,
) -> Served {
    if fs.is_dir(file_path) {
        if !ends_with_slash(url.text) {
            Ok(ResponseView::Header { status: Status::RedirectPermanent, meta: url.text + "/"@ })
        } else {
            index_response(fs, url, config, url_path, file_path, 0)
        }
    } else if fs.holds(file_path) {
        Ok(file_response(file_path))
    } else {
        Ok(not_found())
    }
}

/// The response to the request for `url` on the host with the
/// configuration `config`, when the filesystem holds `fs`: the path of
/// the URL is percent-decoded and rewritten; a redirect rule that matches
/// the rewritten path decides the response; else the path is resolved
/// below the document root and answered by what is found there.
pub open spec fn response_for(fs: Filesystem, url: UrlView, config: ServerConfig) -> Served {
    match percent_decoded_text(url.path) {
        None => Err(HandleErrorView::PathEncoding),
        Some(decoded) => {
            let url_path = rewritten(decoded, config.rewrite_rules@);
            match redirected(url_path, config.redirect_rules@) {
                Some(target) => match redirect_location(url, target) {
                    Some(location) => Ok(
                        ResponseView::Header { status: Status::RedirectPermanent, meta: location },
                    ),
                    None => Err(HandleErrorView::RedirectTooLong),
                },
                None => match resolved_path(config.server_root@, url_path) {
                    Some(file_path) => target_response(fs, url, config, url_path, file_path),
                    None => Ok(not_found()),
                },
            }
        },
    }
}

/// Where the steps of handling end when every question is answered
/// truthfully from `fs`, and at most `patience` questions are answered.
pub open spec fn served(
    fs: Filesystem,
    url: UrlView,
    config: ServerConfig,
    handled: HandledView,
    patience: nat,
) -> Served
    decreases patience,
{
    match handled {
        Err(e) => Err(e),
        Ok((state, action)) => match action {
            ActionView::Respond(response) => Ok(response),
            _ => if patience == 0 {
                Err(HandleErrorView::UnexpectedEvent)
            } else {
                served(
                    fs,
                    url,
                    config,
                    step(state, fs.answer(action), url, config),
                    (patience - 1) as nat,
                )
            },
        },
    }
}

/// The questions about the index files of a directory, answered
/// truthfully, end in the response that the index files or the listing
/// of the directory give.
pub proof fn lemma_index_files_are_served(
    fs: Filesystem,
    url: UrlView,
    config: ServerConfig,
    url_path: Seq<char>,
    dir_path: Seq<char>,
    from: int,
    patience: nat,
)
    requires
        0 <= from <= config.index@.len(),
        patience > config.index@.len() - from,
    ensures
        served(fs, url, config, probe_index(config, url_path, dir_path, from), patience)
            == index_response(fs, url, config, url_path, dir_path, from),
    decreases config.index@.len() - from,
{
    if from < config.index@.len() {
        let candidate = joined_path(dir_path, config.index@[from]@);
        if !index_allowed(url_path, config.index@[from]@) {
            lemma_index_files_are_served(fs, url, config, url_path, dir_path, from + 1, patience);
            assert(probe_index(config, url_path, dir_path, from) == probe_index(
                config,
                url_path,
                dir_path,
                from + 1,
            ));
        } else {
            if !fs.holds(candidate) {
                lemma_index_files_are_served(
                    fs,
                    url,
                    config,
                    url_path,
                    dir_path,
                    from + 1,
                    (patience - 1) as nat,
                );
            }
            assert(served(fs, url, config, probe_index(config, url_path, dir_path, from), patience)
                == served(
                fs,
                url,
                config,
                index_probed(config, url_path, dir_path, from, fs.holds(candidate)),
                (patience - 1) as nat,
            ));
        }
    } else if auto_indexed(url_path, config.autoindex_rules@) {
        assert(served(fs, url, config, probe_index(config, url_path, dir_path, from), patience)
            == served(fs, url, config, listed(url, fs.entries[dir_path]), (patience - 1) as nat));
    }
}

/// The steps of handling a request, every question answered truthfully,
/// end in the response that the request is to have, and they ask no more
/// than three questions besides one for every index file of the host.
pub proof fn lemma_steps_serve_the_response(
    fs: Filesystem,
    url: UrlView,
    config: ServerConfig,
    patience: nat,
)
    requires
        patience >= config.index@.len() + 3,
    ensures
        served(
            fs,
            url,
            config,
            step(HandleStateView::Start, EventView::Begin, url, config),
            patience,
        ) == response_for(fs, url, config),
{
    let first = begun(url, config);
    if let Ok((HandleStateView::Classifying { url_path, file_path }, _)) = first {
        let second = classified(url.text, config, url_path, file_path, fs.is_dir(file_path));
        assert(served(fs, url, config, first, patience) == served(
            fs,
            url,
            config,
            second,
            (patience - 1) as nat,
        ));
        if !fs.is_dir(file_path) {
            let third = file_probed(file_path, fs.holds(file_path));
            assert(served(fs, url, config, second, (patience - 1) as nat) == served(
                fs,
                url,
                config,
                third,
                (patience - 2) as nat,
            ));
        } else if ends_with_slash(url.text) {
            lemma_index_files_are_served(
                fs,
                url,
                config,
                url_path,
                file_path,
                0,
                (patience - 1) as nat,
            );
        }
    }
}

/// A request for a file that exists below the document root is answered
/// with the file: when the path of the URL decodes to a path that the
/// rewrite rules leave as it is, that no redirect rule matches and that
/// resolves to a path below the root where something exists that is no
/// directory, the response is that file, with the content type that its
/// extension stands for.
pub proof fn lemma_file_below_root_is_served(
    fs: Filesystem,
    url: UrlView,
    config: ServerConfig,
    url_path: Seq<char>,
    file_path: Seq<char>,
)
    requires
        percent_decoded_text(url.path) == Some(url_path),
        rewritten(url_path, config.rewrite_rules@) == url_path,
        redirected(url_path, config.redirect_rules@) is None,
        resolved_path(config.server_root@, url_path) == Some(file_path),
        fs.holds(file_path),
        !fs.is_dir(file_path),
    ensures
        response_for(fs, url, config) == Ok::<_, HandleErrorView>(file_response(file_path)),
{
}

/// A request for a directory, made without a separator at the end of
/// the URL, is answered with a permanent redirect to the URL with the
/// separator, whatever the directory holds.
pub proof fn lemma_directory_is_redirected(
    fs: Filesystem,
    url: UrlView,
    config: ServerConfig,
    url_path: Seq<char>,
    file_path: Seq<char>,
)
    requires
        percent_decoded_text(url.path) is Some,
        url_path == rewritten(percent_decoded_text(url.path)->0, config.rewrite_rules@),
        redirected(url_path, config.redirect_rules@) is None,
        resolved_path(config.server_root@, url_path) == Some(file_path),
        fs.is_dir(file_path),
        !ends_with_slash(url.text),
    ensures
        response_for(fs, url, config) == Ok::<_, HandleErrorView>(
            ResponseView::Header { status: Status::RedirectPermanent, meta: url.text + "/"@ },
        ),
{
}

} // verus!
