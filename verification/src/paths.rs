//! From a URL path to a path below the document root.

use vstd::prelude::*;
use vstd::string::*;
use crate::text::chars_of;

verus! {

/// `path` without its leading separator, if it has one.
pub open spec fn without_leading_slash(path: Seq<char>) -> Seq<char> {
    if path.len() > 0 && path[0] == '/' {
        path.skip(1)
    } else {
        path
    }
}

/// `rest` joined onto `root`, with one separator between them unless
/// `root` is empty or ends in one.
pub open spec fn joined_path(root: Seq<char>, rest: Seq<char>) -> Seq<char> {
    if root.len() == 0 || root.last() == '/' {
        root + rest
    } else {
        root + seq!['/'] + rest
    }
}

/// The length of the first segment of `path`: the number of characters
/// before its first separator.
pub open spec fn first_segment_len(path: Seq<char>) -> int
    decreases path.len(),
{
    if path.len() == 0 || path[0] == '/' {
        0
    } else {
        1 + first_segment_len(path.skip(1))
    }
}

/// Where one is after `segment`, having been `depth` directories below
/// the root: `..` leads one up, and out of the root from depth zero
/// (`None`); `.` and the empty segment lead nowhere; any other segment
/// leads one down.
pub open spec fn depth_after(segment: Seq<char>, depth: nat) -> Option<nat> {
    if segment == seq!['.', '.'] {
        if depth == 0 {
            None
        } else {
            Some((depth - 1) as nat)
        }
    } else if segment.len() == 0 || segment == seq!['.'] {
        Some(depth)
    } else {
        Some(depth + 1)
    }
}

/// Whether following `path` segment by segment, from `depth` directories
/// below the root, never leads above the root.
pub open spec fn stays_below(path: Seq<char>, depth: nat) -> bool
    decreases path.len(),
{
    let n = first_segment_len(path);
    match depth_after(path.take(n), depth) {
        None => false,
        Some(next) => if 0 <= n < path.len() {
            stays_below(path.skip(n + 1), next)
        } else {
            true
        },
    }
}

/// Whether `path` begins with a separator: whether it is an absolute
/// path, which names the same place whatever it is joined onto.
pub open spec fn is_absolute(path: Seq<char>) -> bool {
    path.len() > 0 && path[0] == '/'
}

/// Whether `path` is a relative path that, followed from the root, never
/// leads above the root.
pub open spec fn contained(path: Seq<char>) -> bool {
    !is_absolute(path) && stays_below(path, 0)
}

/// The file that `url_path` names below `root`: the path without its
/// leading separator, joined onto the root; `None` where what is left
/// still begins with a separator, or where following it would lead above
/// the root.
pub open spec fn resolved_path(root: Seq<char>, url_path: Seq<char>) -> Option<Seq<char>> {
    let rest = without_leading_slash(url_path);
    if !is_absolute(rest) && contained(rest) {
        Some(joined_path(root, rest))
    } else {
        None
    }
}

/// The first segment ends where the first separator stands.
pub proof fn lemma_first_segment(path: Seq<char>, end: int)
    requires
        0 <= end <= path.len(),
        forall|k: int| 0 <= k < end ==> path[k] != '/',
        end == path.len() || path[end] == '/',
    ensures
        first_segment_len(path) == end,
    decreases end,
{
    if end > 0 {
        let rest = path.skip(1);
        assert forall|k: int| 0 <= k < end - 1 implies rest[k] != '/' by {
            assert(rest[k] == path[k + 1]);
        }
        lemma_first_segment(rest, end - 1);
    }
}

/// `path` without its leading separator, if it has one.
pub fn strip_leading_slash(path: &str) -> (r: &str)
    ensures
        r@ == without_leading_slash(path@),
{
    let n = path.unicode_len();
    if n > 0 && path.get_char(0) == '/' {
        path.substring_char(1, n)
    } else {
        path
    }
}

/// `rest` joined onto `root`, with one separator between them unless
/// `root` is empty or ends in one.
pub fn join_path(root: &str, rest: &str) -> (r: String)
    ensures
        r@ == joined_path(root@, rest@),
{
    let n = root.unicode_len();
    let mut joined = root.to_owned();
    if n > 0 && root.get_char(n - 1) != '/' {
        joined.append("/");
        proof {
            reveal_strlit("/");
            assert("/"@ == seq!['/']);
        }
    }
    joined.append(rest);
    joined
}

/// Whether `path` is a relative path that, followed from the root, never
/// leads above the root.
pub fn is_contained(path: &str) -> (r: bool)
    ensures
        r == contained(path@),
{
    let chars = chars_of(path);
    let n = chars.len();
    if n > 0 && chars[0] == '/' {
        return false;
    }
    let mut start: usize = 0;
    let mut depth: usize = 0;
    assert(path@.skip(0) == path@);
    loop
        invariant
            chars@ == path@,
            n == chars@.len(),
            start <= n,
            depth <= start,
            contained(path@) == stays_below(path@.skip(start as int), depth as nat),
        decreases n - start,
    {
        let mut end = start;
        while end < n && chars[end] != '/'
            invariant
                chars@ == path@,
                n == chars@.len(),
                start <= end <= n,
                forall|k: int| start <= k < end ==> chars@[k] != '/',
            decreases n - end,
        {
            end += 1;
        }
        let ghost rest = path@.skip(start as int);
        let ghost segment = rest.take(end - start);
        proof {
            lemma_first_segment(rest, end - start);
        }
        let width = end - start;
        if width == 2 && chars[start] == '.' && chars[start + 1] == '.' {
            assert(segment =~= seq!['.', '.']);
            if depth == 0 {
                return false;
            }
            depth -= 1;
        } else if width == 0 || (width == 1 && chars[start] == '.') {
            assert(segment.len() == 0 || segment =~= seq!['.']);
            assert(segment != seq!['.', '.']) by {
                assert(seq!['.', '.'].len() == 2);
            }
        } else {
            assert(segment != seq!['.', '.']) by {
                if segment.len() == 2 {
                    assert(segment[0] == chars@[start as int]);
                    assert(segment[1] == chars@[start + 1]);
                    assert(seq!['.', '.'][0] == '.');
                    assert(seq!['.', '.'][1] == '.');
                }
            }
            assert(segment != seq!['.']) by {
                if segment.len() == 1 {
                    assert(segment[0] == chars@[start as int]);
                    assert(seq!['.'][0] == '.');
                }
            }
            depth += 1;
        }
        if end == n {
            return true;
        }
        assert(rest.skip(end - start + 1) == path@.skip(end + 1));
        start = end + 1;
    }
}

/// Whether the file `name` in the directory that `url_path` names lies
/// below the root: whether the name does not begin with a separator,
/// and the path of the directory, joined with the name, never leads
/// above the root. The name may lead out of the directory.
pub open spec fn index_allowed(url_path: Seq<char>, name: Seq<char>) -> bool {
    !is_absolute(name) && contained(joined_path(without_leading_slash(url_path), name))
}

/// Whether the file `name` in the directory that `url_path` names lies
/// below the root: `name` must be a relative path, and following the
/// path of the directory and then the name must never lead above the
/// root.
pub fn is_index_allowed(url_path: &str, name: &str) -> (r: bool)
    ensures
        r == index_allowed(url_path@, name@),
{
    let n = name.unicode_len();
    if n > 0 && name.get_char(0) == '/' {
        return false;
    }
    let joined = join_path(strip_leading_slash(url_path), name);
    is_contained(joined.as_str())
}

/// The file that `url_path` names below `root`: the path without its
/// leading separator, joined onto the root. A path that begins with two
/// separators, and one that would lead above the root, names nothing.
pub fn resolve_path(root: &str, url_path: &str) -> (r: Option<String>)
    ensures
        r is Some <==> resolved_path(root@, url_path@) is Some,
        r matches Some(p) ==> resolved_path(root@, url_path@) == Some(p@),
{
    let rest = strip_leading_slash(url_path);
    if is_contained(rest) {
        Some(join_path(root, rest))
    } else {
        None
    }
}

/// A path that is resolved below a root begins with the root, and goes
/// on, behind at most one separator, with a relative path that never
/// leads above the root: joining adds nothing but that separator, and
/// the part that is joined on never begins with one.
pub proof fn lemma_resolved_path_keeps_root(root: Seq<char>, url_path: Seq<char>)
    requires
        resolved_path(root, url_path) is Some,
    ensures
        ({
            let path = resolved_path(root, url_path)->0;
            let rest = without_leading_slash(url_path);
            &&& contained(rest)
            &&& !is_absolute(rest)
            &&& path.len() >= root.len()
            &&& path.take(root.len() as int) == root
            &&& path.skip(root.len() as int) == rest || path.skip(root.len() as int) == seq!['/']
                + rest
            &&& root.len() == 0 ==> path == rest
        }),
{
    let rest = without_leading_slash(url_path);
    let path = joined_path(root, rest);
    if root.len() == 0 || root.last() == '/' {
        assert(path.take(root.len() as int) =~= root);
        assert(path.skip(root.len() as int) =~= rest);
        if root.len() == 0 {
            assert(path =~= rest);
        }
    } else {
        assert(path.take(root.len() as int) =~= root);
        assert(path.skip(root.len() as int) =~= seq!['/'] + rest);
    }
}

/// How deep below the root one is at the end of `path`, having started
/// `depth` directories below it; `None` where the path leads above the
/// root on its way.
pub open spec fn depth_at_end(path: Seq<char>, depth: nat) -> Option<nat>
    decreases path.len(),
{
    let n = first_segment_len(path);
    match depth_after(path.take(n), depth) {
        None => None,
        Some(next) => if 0 <= n < path.len() {
            depth_at_end(path.skip(n + 1), next)
        } else {
            Some(next)
        },
    }
}

/// Whether `path` lies below `root`: whether it is the root joined with
/// a path that does not begin with a separator and that, followed from
/// the root, never leads above it.
pub open spec fn below_root(root: Seq<char>, path: Seq<char>) -> bool {
    exists|rest: Seq<char>|
        !is_absolute(rest) && contained(rest) && path == #[trigger] joined_path(root, rest)
}

/// The first segment of a path holds no separator, and a separator
/// stands behind it unless the path ends there.
pub proof fn lemma_first_segment_len(path: Seq<char>)
    ensures
        0 <= first_segment_len(path) <= path.len(),
        forall|k: int| 0 <= k < first_segment_len(path) ==> path[k] != '/',
        first_segment_len(path) < path.len() ==> path[first_segment_len(path)] == '/',
    decreases path.len(),
{
    if path.len() > 0 && path[0] != '/' {
        let rest = path.skip(1);
        lemma_first_segment_len(rest);
        assert forall|k: int| 0 <= k < first_segment_len(path) implies path[k] != '/' by {
            if k > 0 {
                assert(rest[k - 1] == path[k]);
            }
        }
        if first_segment_len(path) < path.len() {
            assert(rest[first_segment_len(rest)] == path[first_segment_len(path)]);
        }
    }
}

/// A path stays below the root exactly where it ends at some depth.
pub proof fn lemma_stays_below_end(path: Seq<char>, depth: nat)
    ensures
        stays_below(path, depth) <==> depth_at_end(path, depth) is Some,
    decreases path.len(),
{
    let n = first_segment_len(path);
    lemma_first_segment_len(path);
    if let Some(next) = depth_after(path.take(n), depth) {
        if n < path.len() {
            lemma_stays_below_end(path.skip(n + 1), next);
        }
    }
}

/// A path that stays below the root from some depth stays below it from
/// every greater depth.
pub proof fn lemma_stays_below_deeper(path: Seq<char>, depth: nat, deeper: nat)
    requires
        stays_below(path, depth),
        deeper >= depth,
    ensures
        stays_below(path, deeper),
    decreases path.len(),
{
    let n = first_segment_len(path);
    lemma_first_segment_len(path);
    let next = depth_after(path.take(n), depth)->0;
    let further = depth_after(path.take(n), deeper)->0;
    assert(depth_after(path.take(n), deeper) is Some && further >= next);
    if n < path.len() {
        lemma_stays_below_deeper(path.skip(n + 1), next, further);
    }
}

/// Two paths with a separator between them stay below the root exactly
/// where the first does, and the second does from where the first ends.
pub proof fn lemma_stays_below_concat(first: Seq<char>, second: Seq<char>, depth: nat)
    ensures
        stays_below(first + seq!['/'] + second, depth) <==> depth_at_end(first, depth) is Some
            && stays_below(second, depth_at_end(first, depth)->0),
    decreases first.len(),
{
    let whole = first + seq!['/'] + second;
    let n = first_segment_len(first);
    lemma_first_segment_len(first);
    assert forall|k: int| 0 <= k < n implies whole[k] != '/' by {
        assert(whole[k] == first[k]);
    }
    assert(whole[n] == '/') by {
        if n < first.len() {
            assert(whole[n] == first[n]);
        }
    }
    lemma_first_segment(whole, n);
    assert(whole.take(n) =~= first.take(n));
    if n < first.len() {
        assert(whole.skip(n + 1) =~= first.skip(n + 1) + seq!['/'] + second);
        if let Some(next) = depth_after(first.take(n), depth) {
            lemma_stays_below_concat(first.skip(n + 1), second, next);
        }
    } else {
        assert(whole.skip(n + 1) =~= second);
    }
}

/// A relative path that never leads above where it starts, joined onto
/// one that never leads above the root, never leads above the root.
pub proof fn lemma_joined_path_contained(rest: Seq<char>, name: Seq<char>)
    requires
        contained(rest),
        contained(name),
        rest.len() > 0,
    ensures
        contained(joined_path(rest, name)),
{
    let joined = joined_path(rest, name);
    assert(joined[0] == rest[0]);
    lemma_stays_below_end(rest, 0);
    if rest.last() == '/' {
        let before = rest.drop_last();
        assert(rest =~= before + seq!['/'] + Seq::<char>::empty());
        assert(joined =~= before + seq!['/'] + name);
        lemma_stays_below_concat(before, Seq::<char>::empty(), 0);
        lemma_stays_below_concat(before, name, 0);
        lemma_stays_below_deeper(name, 0, depth_at_end(before, 0)->0);
    } else {
        assert(joined =~= rest + seq!['/'] + name);
        lemma_stays_below_concat(rest, name, 0);
        lemma_stays_below_deeper(name, 0, depth_at_end(rest, 0)->0);
    }
}

/// A path below a root begins with the root; below the empty root it is
/// itself a relative path that never leads above where it starts.
pub proof fn lemma_below_root_begins_with_root(root: Seq<char>, path: Seq<char>)
    requires
        below_root(root, path),
    ensures
        path.len() >= root.len(),
        path.take(root.len() as int) == root,
        root.len() == 0 ==> !is_absolute(path) && contained(path),
{
    let rest = choose|rest: Seq<char>|
        !is_absolute(rest) && contained(rest) && path == #[trigger] joined_path(root, rest);
    assert(path.take(root.len() as int) =~= root);
    if root.len() == 0 {
        assert(path =~= rest);
    }
}

/// A file in the directory that a path resolves to lies below the root
/// where its name is allowed: it is the root joined with the path of
/// the directory and the name, which together never lead above the root.
pub proof fn lemma_index_below_root(root: Seq<char>, url_path: Seq<char>, name: Seq<char>)
    requires
        resolved_path(root, url_path) is Some,
        index_allowed(url_path, name),
    ensures
        below_root(root, joined_path(resolved_path(root, url_path)->0, name)),
{
    let rest = without_leading_slash(url_path);
    let dir_path = joined_path(root, rest);
    let longer = joined_path(rest, name);
    let path = joined_path(dir_path, name);
    if rest.len() == 0 {
        assert(longer =~= name);
        assert(path =~= joined_path(root, longer));
    } else {
        assert(dir_path.last() == rest.last());
        assert(path =~= joined_path(root, longer));
    }
}

/// A name that stays in its directory is allowed in every directory
/// below the root.
pub proof fn lemma_name_in_directory_is_allowed(url_path: Seq<char>, name: Seq<char>)
    requires
        contained(without_leading_slash(url_path)),
        contained(name),
    ensures
        index_allowed(url_path, name),
{
    let rest = without_leading_slash(url_path);
    if rest.len() == 0 {
        assert(joined_path(rest, name) =~= name);
    } else {
        lemma_joined_path_contained(rest, name);
    }
}

} // verus!
