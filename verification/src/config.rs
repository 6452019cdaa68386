//! The configuration that the engine works from: the settings as they
//! are read, the per-host configuration compiled from them, and the table
//! that finds a host's configuration by its name.

use vstd::prelude::*;
use vstd::string::*;
use crate::listing::texts;
use crate::rules::{pattern_compiles, InvalidPattern, Pattern, RewriteRule};
use crate::text::str_eq;

verus! {

/// Where the server listens and where its TLS material lies.
#[derive(Debug, Clone, PartialEq, Eq)]
pub struct BaseConfig {
    pub listen_addr: String,
    pub tls_certificate: String,
    pub tls_certificate_key: String,
}

/// A rewrite or redirect rule as it is read: the source of its pattern
/// and its substitution template.
#[derive(Debug, Clone, PartialEq, Eq)]
pub struct RuleSettings {
    pub pattern: String,
    pub substitution: String,
}

/// The section of one virtual host as it is read, its patterns not yet
/// compiled.
#[derive(Debug, Clone, PartialEq, Eq)]
pub struct ServerSettings {
    pub server_name: Vec<String>,
    pub server_root: String,
    pub index: Vec<String>,
    pub autoindex_rules: Vec<String>,
    pub rewrite_rules: Vec<RuleSettings>,
    pub redirect_rules: Vec<RuleSettings>,
}

/// The configuration of one virtual host.
#[derive(Debug, Clone, PartialEq, Eq)]
pub struct ServerConfig {
    /// The names that the host answers to.
    pub server_name: Vec<String>,
    /// The directory below which the host serves files.
    pub server_root: String,
    /// The names of the files that stand for a directory, in the order
    /// in which they are tried. A name that begins with a separator,
    /// or that leads above the document root from the directory, is
    /// never tried.
    pub index: Vec<String>,
    pub autoindex_rules: Vec<Pattern>,
    pub rewrite_rules: Vec<RewriteRule>,
    pub redirect_rules: Vec<RewriteRule>,
}

/// The table of virtual hosts, in the order in which they were declared.
#[derive(Debug, Clone, PartialEq, Eq)]
pub struct HostTable {
    servers: Vec<ServerConfig>,
}

/// The sources of the patterns of a list of rules.
pub open spec fn rule_patterns(rules: Seq<RuleSettings>) -> Seq<Seq<char>> {
    rules.map_values(|rule: RuleSettings| rule.pattern@)
}

/// Whether every source of `sources` compiles as a pattern.
pub open spec fn all_compile(sources: Seq<Seq<char>>) -> bool {
    forall|i: int| 0 <= i < sources.len() ==> pattern_compiles(#[trigger] sources[i])
}

/// Whether `source` is the first of `sources` that does not compile.
pub open spec fn first_invalid(sources: Seq<Seq<char>>, source: Seq<char>) -> bool {
    exists|i: int|
        0 <= i < sources.len() && #[trigger] sources[i] == source && !pattern_compiles(source)
            && all_compile(sources.take(i))
}

/// Whether `compiled` holds the patterns with the sources `sources`.
pub open spec fn compiled_from(compiled: Seq<Pattern>, sources: Seq<Seq<char>>) -> bool {
    compiled.len() == sources.len() && forall|i: int|
        0 <= i < compiled.len() ==> (#[trigger] compiled[i])@ == sources[i]
}

/// Whether `compiled` holds the rules of `rules`, with the same patterns
/// and substitutions.
pub open spec fn rules_from(compiled: Seq<RewriteRule>, rules: Seq<RuleSettings>) -> bool {
    compiled.len() == rules.len() && forall|i: int|
        0 <= i < compiled.len() ==> (#[trigger] compiled[i]).pattern@ == rules[i].pattern@
            && compiled[i].substitution@ == rules[i].substitution@
}

impl ServerSettings {
    /// The sources of all patterns of the section: those that allow a
    /// listing, those of the rewrite rules, those of the redirect rules.
    pub open spec fn patterns(&self) -> Seq<Seq<char>> {
        texts(self.autoindex_rules@) + rule_patterns(self.rewrite_rules@) + rule_patterns(
            self.redirect_rules@,
        )
    }
}

/// Compiles the patterns with the sources `sources`, in order, up to the
/// first that does not compile.
pub fn compile_patterns(sources: &Vec<String>) -> (r: Result<Vec<Pattern>, InvalidPattern>)
    ensures
        r is Ok <==> all_compile(texts(sources@)),
        r matches Ok(compiled) ==> compiled_from(compiled@, texts(sources@)),
        r matches Err(e) ==> first_invalid(texts(sources@), e.pattern@),
{
    let mut compiled: Vec<Pattern> = Vec::new();
    let mut i: usize = 0;
    while i < sources.len()
        invariant
            i <= sources.len(),
            all_compile(texts(sources@).take(i as int)),
            compiled_from(compiled@, texts(sources@).take(i as int)),
        decreases sources.len() - i,
    {
        match Pattern::new(sources[i].as_str()) {
            Ok(pattern) => {
                compiled.push(pattern);
            },
            Err(e) => {
                assert(texts(sources@)[i as int] == e.pattern@);
                return Err(e);
            },
        }
        i += 1;
    }
    assert(texts(sources@).take(i as int) == texts(sources@));
    Ok(compiled)
}

/// Compiles the rules of `rules`, in order, up to the first whose
/// pattern does not compile.
pub fn compile_rules(rules: &Vec<RuleSettings>) -> (r: Result<Vec<RewriteRule>, InvalidPattern>)
    ensures
        r is Ok <==> all_compile(rule_patterns(rules@)),
        r matches Ok(compiled) ==> rules_from(compiled@, rules@),
        r matches Err(e) ==> first_invalid(rule_patterns(rules@), e.pattern@),
{
    let mut compiled: Vec<RewriteRule> = Vec::new();
    let mut i: usize = 0;
    while i < rules.len()
        invariant
            i <= rules.len(),
            all_compile(rule_patterns(rules@).take(i as int)),
            rules_from(compiled@, rules@.take(i as int)),
        decreases rules.len() - i,
    {
        match Pattern::new(rules[i].pattern.as_str()) {
            Ok(pattern) => {
                compiled.push(RewriteRule { pattern, substitution: rules[i].substitution.clone() });
            },
            Err(e) => {
                assert(rule_patterns(rules@)[i as int] == e.pattern@);
                return Err(e);
            },
        }
        i += 1;
    }
    assert(rule_patterns(rules@).take(i as int) == rule_patterns(rules@));
    assert(rules@.take(i as int) == rules@);
    Ok(compiled)
}

impl ServerConfig {
    /// The names that this host answers to.
    pub open spec fn names(&self) -> Seq<Seq<char>> {
        texts(self.server_name@)
    }

    /// Whether this is the configuration that `settings` describes.
    pub open spec fn configured_by(&self, settings: ServerSettings) -> bool {
        &&& self.names() == texts(settings.server_name@)
        &&& self.server_root@ == settings.server_root@
        &&& texts(self.index@) == texts(settings.index@)
        &&& compiled_from(self.autoindex_rules@, texts(settings.autoindex_rules@))
        &&& rules_from(self.rewrite_rules@, settings.rewrite_rules@)
        &&& rules_from(self.redirect_rules@, settings.redirect_rules@)
    }

    /// Compiles the patterns of `settings`: first those that allow a
    /// listing, then those of the rewrite rules, then those of the
    /// redirect rules. The first that does not compile is the error.
    pub fn compile(settings: ServerSettings) -> (r: Result<ServerConfig, InvalidPattern>)
        ensures
            r is Ok <==> all_compile(settings.patterns()),
            r matches Ok(config) ==> config.configured_by(settings),
            r matches Err(e) ==> first_invalid(settings.patterns(), e.pattern@),
    {
        let ghost listing = texts(settings.autoindex_rules@);
        let ghost rewrite = rule_patterns(settings.rewrite_rules@);
        let ghost redirect = rule_patterns(settings.redirect_rules@);
        let autoindex_rules = match compile_patterns(&settings.autoindex_rules) {
            Ok(compiled) => compiled,
            Err(e) => {
                proof {
                    let i = choose|i: int|
                        0 <= i < listing.len() && #[trigger] listing[i] == e.pattern@ && all_compile(
                            listing.take(i),
                        );
                    assert(settings.patterns()[i] == e.pattern@);
                    assert(settings.patterns().take(i) == listing.take(i));
                }
                return Err(e);
            },
        };
        let rewrite_rules = match compile_rules(&settings.rewrite_rules) {
            Ok(compiled) => compiled,
            Err(e) => {
                proof {
                    let i = choose|i: int|
                        0 <= i < rewrite.len() && #[trigger] rewrite[i] == e.pattern@ && all_compile(
                            rewrite.take(i),
                        );
                    let at = listing.len() + i;
                    assert(settings.patterns()[at] == e.pattern@);
                    assert(settings.patterns().take(at) == listing + rewrite.take(i));
                    lemma_all_compile_concat(listing, rewrite.take(i));
                }
                return Err(e);
            },
        };
        let redirect_rules = match compile_rules(&settings.redirect_rules) {
            Ok(compiled) => compiled,
            Err(e) => {
                proof {
                    let i = choose|i: int|
                        0 <= i < redirect.len() && #[trigger] redirect[i] == e.pattern@
                            && all_compile(redirect.take(i));
                    let at = listing.len() + rewrite.len() + i;
                    assert(settings.patterns()[at] == e.pattern@);
                    assert(settings.patterns().take(at) == listing + rewrite + redirect.take(i));
                    lemma_all_compile_concat(listing, rewrite);
                    lemma_all_compile_concat(listing + rewrite, redirect.take(i));
                }
                return Err(e);
            },
        };
        proof {
            lemma_all_compile_concat(listing, rewrite);
            lemma_all_compile_concat(listing + rewrite, redirect);
        }
        Ok(
            ServerConfig {
                server_name: settings.server_name,
                server_root: settings.server_root,
                index: settings.index,
                autoindex_rules,
                rewrite_rules,
                redirect_rules,
            },
        )
    }

    /// Whether `host` is one of the names that this host answers to:
    /// the very name, with no regard to wildcards or case.
    pub fn serves(&self, host: &str) -> (r: bool)
        ensures
            r == self.names().contains(host@),
    {
        let mut i: usize = 0;
        while i < self.server_name.len()
            invariant
                i <= self.server_name.len(),
                forall|j: int| 0 <= j < i ==> self.names()[j] != host@,
            decreases self.server_name.len() - i,
        {
            if str_eq(self.server_name[i].as_str(), host) {
                assert(self.names()[i as int] == host@);
                return true;
            }
            i += 1;
        }
        false
    }
}

/// The sources of two lists all compile where those of each list do.
pub proof fn lemma_all_compile_concat(a: Seq<Seq<char>>, b: Seq<Seq<char>>)
    ensures
        all_compile(a + b) <==> all_compile(a) && all_compile(b),
{
    if all_compile(a + b) {
        assert forall|i: int| 0 <= i < a.len() implies pattern_compiles(#[trigger] a[i]) by {
            assert((a + b)[i] == a[i]);
        }
        assert forall|i: int| 0 <= i < b.len() implies pattern_compiles(#[trigger] b[i]) by {
            assert((a + b)[a.len() + i] == b[i]);
        }
    }
    if all_compile(a) && all_compile(b) {
        assert forall|i: int| 0 <= i < (a + b).len() implies pattern_compiles(#[trigger] (a + b)[i]) by {
            if i < a.len() {
                assert((a + b)[i] == a[i]);
            } else {
                assert((a + b)[i] == b[i - a.len()]);
            }
        }
    }
}

/// The host that answers to `host`: of the hosts of `servers` that have
/// the name, the one declared last.
pub open spec fn last_serving(servers: Seq<ServerConfig>, host: Seq<char>) -> Option<int>
    decreases servers.len(),
{
    if servers.len() == 0 {
        None
    } else if servers.last().names().contains(host) {
        Some(servers.len() - 1)
    } else {
        last_serving(servers.drop_last(), host)
    }
}

impl HostTable {
    /// The hosts of the table, in the order in which they were declared.
    pub closed spec fn servers(&self) -> Seq<ServerConfig> {
        self.servers@
    }

    /// The table as a map from every name that a host answers to, to the
    /// place of that host among the hosts.
    pub open spec fn routes(&self) -> Map<Seq<char>, int> {
        Map::new(
            |host: Seq<char>| last_serving(self.servers(), host) is Some,
            |host: Seq<char>| last_serving(self.servers(), host)->0,
        )
    }

    /// The table of the hosts `servers`.
    pub fn new(servers: Vec<ServerConfig>) -> (r: HostTable)
        ensures
            r.servers() == servers@,
    {
        HostTable { servers }
    }

    /// The number of hosts.
    pub fn len(&self) -> (n: usize)
        ensures
            n == self.servers().len(),
    {
        self.servers.len()
    }

    /// The host at the place `index`.
    pub fn server(&self, index: usize) -> (r: Option<&ServerConfig>)
        ensures
            r is Some <==> index < self.servers().len(),
            r matches Some(config) ==> *config == self.servers()[index as int],
    {
        if index < self.servers.len() {
            Some(&self.servers[index])
        } else {
            None
        }
    }

    /// The place of the host that answers to `host`: the name must be
    /// the very name that was configured, and of two hosts with the same
    /// name the one declared last answers.
    pub fn resolve(&self, host: &str) -> (r: Option<usize>)
        ensures
            r is Some <==> self.routes().contains_key(host@),
            r matches Some(index) ==> index == self.routes()[host@] && index < self.servers().len(),
    {
        let mut i: usize = self.servers.len();
        assert(self.servers@.take(i as int) == self.servers@);
        while i > 0
            invariant
                i <= self.servers.len(),
                last_serving(self.servers@, host@) == last_serving(self.servers@.take(i as int), host@),
            decreases i,
        {
            assert(self.servers@.take(i as int).drop_last() == self.servers@.take(i - 1));
            assert(self.servers@.take(i as int).last() == self.servers@[i - 1]);
            if self.servers[i - 1].serves(host) {
                return Some(i - 1);
            }
            i -= 1;
        }
        None
    }

    /// The configuration of the host that answers to `host`.
    pub fn get(&self, host: &str) -> (r: Option<&ServerConfig>)
        ensures
            r is Some <==> self.routes().contains_key(host@),
            r matches Some(config) ==> *config == self.servers()[self.routes()[host@]],
    {
        match self.resolve(host) {
            Some(index) => Some(&self.servers[index]),
            None => None,
        }
    }
}

/// Builds the table of hosts from the settings as they were read: every
/// section is compiled in turn, and the first pattern that does not
/// compile is the error.
pub fn load(settings: BaseConfig, servers: Vec<ServerSettings>) -> (r: Result<
    (BaseConfig, HostTable),
    InvalidPattern,
>)
    ensures
        r is Ok <==> forall|i: int| 0 <= i < servers@.len() ==> all_compile((#[trigger] servers@[i]).patterns()),
        r matches Ok((base, table)) ==> base == settings && table.servers().len() == servers@.len()
            && forall|i: int|
            0 <= i < servers@.len() ==> (#[trigger] table.servers()[i]).configured_by(servers@[i]),
        r matches Err(e) ==> exists|i: int|
            0 <= i < servers@.len() && first_invalid((#[trigger] servers@[i]).patterns(), e.pattern@)
                && forall|k: int| 0 <= k < i ==> all_compile((#[trigger] servers@[k]).patterns()),
{
    let ghost sections = servers@;
    let mut configs: Vec<ServerConfig> = Vec::new();
    for section in it: servers
        invariant
            it.seq() == sections,
            configs@.len() == it.index(),
            forall|k: int| 0 <= k < it.index() ==> all_compile((#[trigger] sections[k]).patterns()),
            forall|k: int| 0 <= k < it.index() ==> (#[trigger] configs@[k]).configured_by(sections[k]),
    {
        match ServerConfig::compile(section) {
            Ok(config) => {
                configs.push(config);
            },
            Err(e) => {
                return Err(e);
            },
        }
    }
    Ok((settings, HostTable { servers: configs }))
}

/// Of the hosts that answer to a name, the one declared last is the one
/// that the table finds; a name that no host answers to finds none.
pub proof fn lemma_last_registration_wins(servers: Seq<ServerConfig>, host: Seq<char>)
    ensures
        match last_serving(servers, host) {
            Some(index) => 0 <= index < servers.len() && servers[index].names().contains(host)
                && forall|later: int|
                index < later < servers.len() ==> !(#[trigger] servers[later]).names().contains(host),
            None => forall|any: int|
                0 <= any < servers.len() ==> !(#[trigger] servers[any]).names().contains(host),
        },
    decreases servers.len(),
{
    if servers.len() > 0 && !servers.last().names().contains(host) {
        lemma_last_registration_wins(servers.drop_last(), host);
        match last_serving(servers.drop_last(), host) {
            Some(index) => {
                assert(servers.drop_last()[index] == servers[index]);
                assert forall|later: int| index < later < servers.len() implies !(
                #[trigger] servers[later]).names().contains(host) by {
                    if later < servers.len() - 1 {
                        assert(servers.drop_last()[later] == servers[later]);
                    }
                }
            },
            None => {
                assert forall|any: int| 0 <= any < servers.len() implies !(
                #[trigger] servers[any]).names().contains(host) by {
                    if any < servers.len() - 1 {
                        assert(servers.drop_last()[any] == servers[any]);
                    }
                }
            },
        }
    }
}

} // verus!
