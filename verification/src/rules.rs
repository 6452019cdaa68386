//! Patterns and the ordered rule lists that rewrite a request path, turn
//! it into a redirect, or let a directory be listed.
//!
//! A pattern is kept as its source text and compiled by the `regex` crate
//! whenever it is used, so that what a rule does is a function of plain
//! text: of the pattern, the path and the substitution template.

use vstd::prelude::*;
use vstd::string::*;

verus! {

#[verifier::external_type_specification]
#[verifier::external_body]
pub struct ExRegexError(regex::Error);

/// Whether `regex::Regex::new` accepts `pattern`.
pub uninterp spec fn pattern_compiles(pattern: Seq<char>) -> bool;

/// What `regex::Regex::is_match` returns for the compiled `pattern` on
/// `text`: whether the pattern matches anywhere in the text.
pub uninterp spec fn pattern_matches(pattern: Seq<char>, text: Seq<char>) -> bool;

/// What `regex::Regex::replace` returns for the compiled `pattern` on
/// `text` with the template `replacement`: the text with its leftmost
/// match replaced by the expanded template.
pub uninterp spec fn pattern_replaced(
    pattern: Seq<char>,
    text: Seq<char>,
    replacement: Seq<char>,
) -> Seq<char>;

/// `regex::Regex::new` followed by `Regex::is_match`. The error is the one
/// of `new`; a compiled pattern answers whether it matches anywhere in
/// `text`.
#[verifier::external_body]
fn regex_is_match(pattern: &str, text: &str) -> (r: Result<bool, regex::Error>)
    ensures
        r is Ok <==> pattern_compiles(pattern@),
        r matches Ok(found) ==> found == pattern_matches(pattern@, text@),
{
    match regex::Regex::new(pattern) {
        Ok(re) => Ok(re.is_match(text)),
        Err(e) => Err(e),
    }
}

/// `regex::Regex::new` followed by `Regex::replace` with a template string.
/// The error is the one of `new`. As the crate documents, a text without a
/// match comes back unchanged.
#[verifier::external_body]
fn regex_replace(pattern: &str, text: &str, replacement: &str) -> (r: Result<String, regex::Error>)
    ensures
        r is Ok <==> pattern_compiles(pattern@),
        r matches Ok(s) ==> s@ == pattern_replaced(pattern@, text@, replacement@),
        r matches Ok(s) ==> (!pattern_matches(pattern@, text@) ==> s@ == text@),
{
    match regex::Regex::new(pattern) {
        Ok(re) => Ok(re.replace(text, replacement).into_owned()),
        Err(e) => Err(e),
    }
}

/// The source text that was refused as a pattern.
#[derive(Debug, Clone, PartialEq, Eq)]
pub struct InvalidPattern {
    pub pattern: String,
}

/// A regular expression that is known to compile.
#[derive(Debug, PartialEq, Eq)]
pub struct Pattern {
    source: String,
}

impl View for Pattern {
    type V = Seq<char>;

    /// The source text of the pattern.
    closed spec fn view(&self) -> Seq<char> {
        self.source@
    }
}

impl Clone for Pattern {
    fn clone(&self) -> (r: Pattern)
        ensures
            r@ == self@,
    {
        proof {
            use_type_invariant(self);
        }
        Pattern { source: self.source.clone() }
    }
}

impl Pattern {
    #[verifier::type_invariant]
    spec fn compiles(&self) -> bool {
        pattern_compiles(self.source@)
    }

    /// Accepts `source` as a pattern if it compiles.
    pub fn new(source: &str) -> (r: Result<Pattern, InvalidPattern>)
        ensures
            r is Ok <==> pattern_compiles(source@),
            r matches Ok(p) ==> p@ == source@,
            r matches Err(e) ==> e.pattern@ == source@,
    {
        match regex_is_match(source, "") {
            Ok(_) => Ok(Pattern { source: source.to_owned() }),
            Err(_) => Err(InvalidPattern { pattern: source.to_owned() }),
        }
    }

    /// The source text of the pattern.
    pub fn as_str(&self) -> (s: &str)
        ensures
            s@ == self@,
            pattern_compiles(self@),
    {
        proof {
            use_type_invariant(self);
        }
        self.source.as_str()
    }

    /// Whether the pattern matches anywhere in `text`.
    pub fn is_match(&self, text: &str) -> (found: bool)
        ensures
            found == pattern_matches(self@, text@),
    {
        proof {
            use_type_invariant(self);
        }
        match regex_is_match(self.source.as_str(), text) {
            Ok(found) => found,
            Err(_) => unreached(),
        }
    }

    /// `text` with the leftmost match of the pattern replaced by
    /// `replacement`, in which `$1` or `$name` stand for capture groups.
    /// A text that the pattern does not match comes back unchanged.
    pub fn replace(&self, text: &str, replacement: &str) -> (r: String)
        ensures
            r@ == pattern_replaced(self@, text@, replacement@),
            !pattern_matches(self@, text@) ==> r@ == text@,
    {
        proof {
            use_type_invariant(self);
        }
        match regex_replace(self.source.as_str(), text, replacement) {
            Ok(replaced) => replaced,
            Err(_) => unreached(),
        }
    }
}

/// A pattern and the template that replaces what it matches.
#[derive(Debug, Clone, PartialEq, Eq)]
pub struct RewriteRule {
    pub pattern: Pattern,
    pub substitution: String,
}

impl RewriteRule {
    /// What this rule makes of `path`.
    pub open spec fn applied(&self, path: Seq<char>) -> Seq<char> {
        pattern_replaced(self.pattern@, path, self.substitution@)
    }

    /// Whether the pattern of this rule matches `path`.
    pub open spec fn matches(&self, path: Seq<char>) -> bool {
        pattern_matches(self.pattern@, path)
    }
}

/// `path` after every rule of `rules` has been applied in order, each to
/// what the rule before it produced.
pub open spec fn rewritten(path: Seq<char>, rules: Seq<RewriteRule>) -> Seq<char>
    decreases rules.len(),
{
    if rules.len() == 0 {
        path
    } else {
        rules.last().applied(rewritten(path, rules.drop_last()))
    }
}

/// The redirect target for `path`: what the first rule whose pattern
/// matches makes of it, or `None` if no pattern matches.
pub open spec fn redirected(path: Seq<char>, rules: Seq<RewriteRule>) -> Option<Seq<char>>
    decreases rules.len(),
{
    if rules.len() == 0 {
        None
    } else if rules[0].matches(path) {
        Some(rules[0].applied(path))
    } else {
        redirected(path, rules.drop_first())
    }
}

/// Whether some pattern of `patterns` matches `path`.
pub open spec fn auto_indexed(path: Seq<char>, patterns: Seq<Pattern>) -> bool {
    exists|i: int| 0 <= i < patterns.len() && pattern_matches(#[trigger] patterns[i]@, path)
}

/// Whether `url_path` matches one of the patterns that allow a listing.
pub fn is_auto_indexed(url_path: &str, index_rules: &[Pattern]) -> (r: bool)
    ensures
        r == auto_indexed(url_path@, index_rules@),
{
    let mut i: usize = 0;
    while i < index_rules.len()
        invariant
            i <= index_rules.len(),
            forall|j: int| 0 <= j < i ==> !pattern_matches(#[trigger] index_rules@[j]@, url_path@),
        decreases index_rules.len() - i,
    {
        if index_rules[i].is_match(url_path) {
            return true;
        }
        i += 1;
    }
    false
}

/// Applies the rewrite rules in order, each to the result of the one
/// before; a rule whose pattern does not match leaves the path as it is.
pub fn rewrite_url(url_path: &str, rewrite_rules: &[RewriteRule]) -> (r: String)
    ensures
        r@ == rewritten(url_path@, rewrite_rules@),
        (forall|j: int| 0 <= j < rewrite_rules@.len() ==> !(#[trigger] rewrite_rules@[j]).matches(url_path@))
            ==> r@ == url_path@,
{
    let mut path = url_path.to_owned();
    let mut i: usize = 0;
    while i < rewrite_rules.len()
        invariant
            i <= rewrite_rules.len(),
            path@ == rewritten(url_path@, rewrite_rules@.take(i as int)),
            (forall|j: int| 0 <= j < i ==> !(#[trigger] rewrite_rules@[j]).matches(url_path@)) ==> path@
                == url_path@,
        decreases rewrite_rules.len() - i,
    {
        let rule = &rewrite_rules[i];
        assert(rewrite_rules@.take(i + 1).drop_last() == rewrite_rules@.take(i as int));
        path = rule.pattern.replace(path.as_str(), rule.substitution.as_str());
        i += 1;
    }
    assert(rewrite_rules@.take(i as int) == rewrite_rules@);
    path
}

/// The redirect target for `url_path`, if a redirect rule matches it: the
/// first matching rule decides, and no rule after it is looked at.
pub fn apply_redirects(url_path: &str, redirect_rules: &[RewriteRule]) -> (r: Option<String>)
    ensures
        match r {
            Some(target) => redirected(url_path@, redirect_rules@) == Some(target@),
            None => redirected(url_path@, redirect_rules@) is None,
        },
{
    let mut i: usize = 0;
    assert(redirect_rules@.skip(0) == redirect_rules@);
    while i < redirect_rules.len()
        invariant
            i <= redirect_rules.len(),
            redirected(url_path@, redirect_rules@) == redirected(
                url_path@,
                redirect_rules@.skip(i as int),
            ),
        decreases redirect_rules.len() - i,
    {
        let rule = &redirect_rules[i];
        assert(redirect_rules@.skip(i as int)[0] == redirect_rules@[i as int]);
        assert(redirect_rules@.skip(i as int).drop_first() == redirect_rules@.skip(i + 1));
        if rule.pattern.is_match(url_path) {
            return Some(rule.pattern.replace(url_path, rule.substitution.as_str()));
        }
        i += 1;
    }
    None
}

/// Rewrite rules compose from left to right: to apply one list and then
/// another is to apply the two lists joined.
pub proof fn lemma_rewrite_composes(path: Seq<char>, first: Seq<RewriteRule>, then: Seq<RewriteRule>)
    ensures
        rewritten(path, first + then) == rewritten(rewritten(path, first), then),
    decreases then.len(),
{
    if then.len() == 0 {
        assert(first + then == first);
    } else {
        assert((first + then).drop_last() == first + then.drop_last());
        assert((first + then).last() == then.last());
        lemma_rewrite_composes(path, first, then.drop_last());
    }
}

/// Of the redirect rules whose patterns match, the one declared first
/// decides the target, whatever the rules after it say.
pub proof fn lemma_redirect_precedence(path: Seq<char>, rules: Seq<RewriteRule>, first: int)
    requires
        0 <= first < rules.len(),
        rules[first].matches(path),
        forall|j: int| 0 <= j < first ==> !(#[trigger] rules[j]).matches(path),
    ensures
        redirected(path, rules) == Some(rules[first].applied(path)),
    decreases rules.len(),
{
    if first > 0 {
        assert(!rules[0].matches(path));
        let rest = rules.drop_first();
        assert(rest[first - 1] == rules[first]);
        assert forall|j: int| 0 <= j < first - 1 implies !(#[trigger] rest[j]).matches(path) by {
            assert(rest[j] == rules[j + 1]);
        }
        lemma_redirect_precedence(path, rest, first - 1);
    }
}

/// Without a matching redirect rule there is no redirect.
pub proof fn lemma_no_match_no_redirect(path: Seq<char>, rules: Seq<RewriteRule>)
    ensures
        redirected(path, rules) is None <==> forall|j: int|
            0 <= j < rules.len() ==> !(#[trigger] rules[j]).matches(path),
    decreases rules.len(),
{
    if rules.len() > 0 {
        let rest = rules.drop_first();
        lemma_no_match_no_redirect(path, rest);
        if redirected(path, rules) is None {
            assert forall|j: int| 0 <= j < rules.len() implies !(#[trigger] rules[j]).matches(path) by {
                if j > 0 {
                    assert(rest[j - 1] == rules[j]);
                }
            }
        } else if !rules[0].matches(path) {
            let j = choose|j: int| 0 <= j < rest.len() && (#[trigger] rest[j]).matches(path);
            assert(rest[j] == rules[j + 1]);
        }
    }
}

} // verus!
