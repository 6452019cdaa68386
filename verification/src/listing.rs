//! The listing that stands in for a directory without an index file.

use vstd::prelude::*;
use vstd::string::*;
use vstd::utf8::*;
use crate::url::{linked, RequestUrl, UrlView};

verus! {

/// One entry of a directory: its name, and whether it is a directory.
#[derive(Debug, Clone, PartialEq, Eq)]
pub struct DirEntry {
    pub name: String,
    pub is_dir: bool,
}

/// The entry whose name cannot be joined to the URL of the listing.
#[derive(Debug, Clone, PartialEq, Eq)]
pub struct UnlinkableEntry {
    pub name: String,
}

/// What `str::to_lowercase` returns for `text`.
pub uninterp spec fn lowercased(text: Seq<char>) -> Seq<char>;

/// `str::to_lowercase`.
#[verifier::external_body]
fn to_lowercase(text: &str) -> (r: String)
    ensures
        r@ == lowercased(text@),
{
    text.to_lowercase()
}

/// The texts of a sequence of strings.
pub open spec fn texts(names: Seq<String>) -> Seq<Seq<char>> {
    names.map_values(|name: String| name@)
}

/// The order of byte strings: byte by byte, a prefix before what it is
/// a prefix of.
pub open spec fn bytes_le(a: Seq<u8>, b: Seq<u8>) -> bool
    decreases a.len(),
{
    if a.len() == 0 {
        true
    } else if b.len() == 0 {
        false
    } else if a[0] != b[0] {
        a[0] < b[0]
    } else {
        bytes_le(a.skip(1), b.skip(1))
    }
}

/// A name with the key that it is ordered by: first the key, then the
/// name.
pub type Keyed = (Seq<char>, Seq<char>);

/// Whether `a` may stand before `b`: whether the bytes of its key come
/// before those of the key of `b`, or are the same.
pub open spec fn before(a: Keyed, b: Keyed) -> bool {
    bytes_le(encode_utf8(a.0), encode_utf8(b.0))
}

/// `sorted` with `item` put behind the last item that may stand before it.
pub open spec fn inserted(sorted: Seq<Keyed>, item: Keyed) -> Seq<Keyed>
    decreases sorted.len(),
{
    if sorted.len() == 0 || before(sorted.last(), item) {
        sorted.push(item)
    } else {
        inserted(sorted.drop_last(), item).push(sorted.last())
    }
}

/// `items` in the order of their keys, and items with the same key in
/// the order in which they came.
pub open spec fn sorted_by_key(items: Seq<Keyed>) -> Seq<Keyed>
    decreases items.len(),
{
    if items.len() == 0 {
        seq![]
    } else {
        inserted(sorted_by_key(items.drop_last()), items.last())
    }
}

/// Whether every item of `items` may stand before the items behind it.
pub open spec fn ordered(items: Seq<Keyed>) -> bool {
    forall|i: int, j: int| 0 <= i < j < items.len() ==> before(#[trigger] items[i], #[trigger] items[j])
}

/// Every name with its lower-case form as its key.
pub open spec fn with_keys(names: Seq<Seq<char>>) -> Seq<Keyed> {
    names.map_values(|name: Seq<char>| (lowercased(name), name))
}

/// The names of `items`.
pub open spec fn names_of(items: Seq<Keyed>) -> Seq<Seq<char>> {
    items.map_values(|item: Keyed| item.1)
}

/// `names` in the order of a listing: without regard to case, that is
/// by their lower-case forms, and names with the same lower-case form in
/// the order in which they came.
pub open spec fn sorted_names(names: Seq<Seq<char>>) -> Seq<Seq<char>> {
    names_of(sorted_by_key(with_keys(names)))
}

/// The names of the directories among `entries`, each with a separator
/// behind it, in the order of `entries`.
pub open spec fn listed_dirs(entries: Seq<DirEntry>) -> Seq<Seq<char>>
    decreases entries.len(),
{
    if entries.len() == 0 {
        seq![]
    } else if entries.last().is_dir {
        listed_dirs(entries.drop_last()).push(entries.last().name@ + "/"@)
    } else {
        listed_dirs(entries.drop_last())
    }
}

/// The names of the entries of `entries` that are no directories, in the
/// order of `entries`.
pub open spec fn listed_files(entries: Seq<DirEntry>) -> Seq<Seq<char>>
    decreases entries.len(),
{
    if entries.len() == 0 {
        seq![]
    } else if entries.last().is_dir {
        listed_files(entries.drop_last())
    } else {
        listed_files(entries.drop_last()).push(entries.last().name@)
    }
}

/// The line of a listing that links to `link` under the label `name`.
pub open spec fn entry_line(link: Seq<char>, name: Seq<char>) -> Seq<char> {
    "=> "@ + link + " "@ + name + "\n"@
}

/// The lines for `names`, one after the other, each linking to the name
/// joined to the URL parsed from `source`; the first name that cannot be
/// joined is the error.
pub open spec fn entry_lines(source: Seq<char>, names: Seq<Seq<char>>) -> Result<
    Seq<char>,
    Seq<char>,
>
    decreases names.len(),
{
    if names.len() == 0 {
        Ok(seq![])
    } else {
        match entry_lines(source, names.drop_last()) {
            Err(name) => Err(name),
            Ok(lines) => match linked(source, names.last()) {
                Some(link) => Ok(lines + entry_line(link, names.last())),
                None => Err(names.last()),
            },
        }
    }
}

/// The listing of `entries` for the URL `url`: a heading that names the
/// URL, a line for every directory, and a line for every other entry.
pub open spec fn index_text(url: UrlView, entries: Seq<DirEntry>) -> Result<Seq<char>, Seq<char>> {
    match entry_lines(url.source, sorted_names(listed_dirs(entries))) {
        Err(name) => Err(name),
        Ok(dirs) => match entry_lines(url.source, sorted_names(listed_files(entries))) {
            Err(name) => Err(name),
            Ok(files) => Ok("Index of "@ + url.text + "\n\n"@ + dirs + files),
        },
    }
}

/// Whether `a` comes before `b`, or is equal to it, byte by byte.
pub fn key_le(a: &[u8], b: &[u8]) -> (r: bool)
    ensures
        r == bytes_le(a@, b@),
{
    let mut i: usize = 0;
    assert(a@.skip(0) == a@ && b@.skip(0) == b@);
    while i < a.len()
        invariant
            i <= a.len(),
            i <= b.len(),
            bytes_le(a@, b@) == bytes_le(a@.skip(i as int), b@.skip(i as int)),
        decreases a.len() - i,
    {
        if i >= b.len() {
            return false;
        }
        if a[i] != b[i] {
            return a[i] < b[i];
        }
        assert(a@.skip(i as int).skip(1) == a@.skip(i + 1));
        assert(b@.skip(i as int).skip(1) == b@.skip(i + 1));
        i += 1;
    }
    true
}

/// To put `item` at `at` is to put it behind the last item that may
/// stand before it, if that item stands just before `at`.
proof fn lemma_inserted_at(sorted: Seq<Keyed>, item: Keyed, at: int)
    requires
        0 <= at <= sorted.len(),
        at == 0 || before(sorted[at - 1], item),
        forall|j: int| at <= j < sorted.len() ==> !before(#[trigger] sorted[j], item),
    ensures
        inserted(sorted, item) == sorted.insert(at, item),
    decreases sorted.len() - at,
{
    if at == sorted.len() {
        assert(sorted.insert(at, item) == sorted.push(item));
    } else {
        let shorter = sorted.drop_last();
        assert(!before(sorted.last(), item));
        assert forall|j: int| at <= j < shorter.len() implies !before(#[trigger] shorter[j], item) by {
            assert(shorter[j] == sorted[j]);
        }
        if at > 0 {
            assert(shorter[at - 1] == sorted[at - 1]);
        }
        lemma_inserted_at(shorter, item, at);
        assert(shorter.insert(at, item).push(sorted.last()) == sorted.insert(at, item));
    }
}

/// A name with the key that it is ordered by.
#[derive(Debug, Clone, PartialEq, Eq)]
pub struct KeyedName {
    pub key: String,
    pub name: String,
}

/// The keys and names of a sequence of keyed names.
pub open spec fn keyed(items: Seq<KeyedName>) -> Seq<Keyed> {
    items.map_values(|item: KeyedName| (item.key@, item.name@))
}

/// The items in the order of their keys, byte by byte, and items with
/// the same key in the order in which they came.
pub fn sort_by_key(items: Vec<KeyedName>) -> (r: Vec<KeyedName>)
    ensures
        keyed(r@) == sorted_by_key(keyed(items@)),
        ordered(keyed(r@)),
        keyed(r@).to_multiset() == keyed(items@).to_multiset(),
{
    let ghost given = keyed(items@);
    let mut sorted: Vec<KeyedName> = Vec::new();
    let mut i: usize = 0;
    assert(given.take(0) == Seq::<Keyed>::empty());
    assert(keyed(sorted@) == Seq::<Keyed>::empty());
    while i < items.len()
        invariant
            i <= items.len(),
            given == keyed(items@),
            keyed(sorted@) == sorted_by_key(given.take(i as int)),
        decreases items.len() - i,
    {
        let item = KeyedName { key: items[i].key.clone(), name: items[i].name.clone() };
        let ghost pair = (item.key@, item.name@);
        let mut at: usize = sorted.len();
        while at > 0 && !key_le(sorted[at - 1].key.as_str().as_bytes(), item.key.as_str().as_bytes())
            invariant
                at <= sorted@.len(),
                pair == (item.key@, item.name@),
                forall|j: int| at <= j < sorted@.len() ==> !before(#[trigger] keyed(sorted@)[j], pair),
            decreases at,
        {
            at -= 1;
        }
        proof {
            assert(given.take(i + 1).drop_last() == given.take(i as int));
            assert(given.take(i + 1).last() == pair);
            if at > 0 {
                assert(keyed(sorted@)[at - 1] == (sorted@[at - 1].key@, sorted@[at - 1].name@));
            }
            lemma_inserted_at(keyed(sorted@), pair, at as int);
            assert(keyed(sorted@.insert(at as int, item)) == keyed(sorted@).insert(at as int, pair));
        }
        sorted.insert(at, item);
        i += 1;
    }
    assert(given.take(i as int) == given);
    proof {
        lemma_sorted_by_key_ordered(given);
        lemma_sorted_by_key_permutation(given);
    }
    sorted
}

/// The names in the order of a listing: by the bytes of their lower-case
/// forms, and names that agree there in the order in which they came.
pub fn sort_names(names: Vec<String>) -> (r: Vec<String>)
    ensures
        texts(r@) == sorted_names(texts(names@)),
        texts(r@).to_multiset() == texts(names@).to_multiset(),
{
    proof {
        lemma_sorted_names_permutation(texts(names@));
    }
    let mut items: Vec<KeyedName> = Vec::new();
    let mut i: usize = 0;
    assert(keyed(items@) == with_keys(texts(names@).take(0)));
    while i < names.len()
        invariant
            i <= names.len(),
            keyed(items@) == with_keys(texts(names@).take(i as int)),
        decreases names.len() - i,
    {
        let name = names[i].clone();
        let key = to_lowercase(name.as_str());
        let item = KeyedName { key, name };
        assert(keyed(items@.push(item)) =~= keyed(items@).push((item.key@, item.name@)));
        assert(with_keys(texts(names@).take(i + 1)) =~= with_keys(texts(names@).take(i as int)).push(
            (lowercased(names@[i as int]@), names@[i as int]@),
        ));
        items.push(item);
        i += 1;
    }
    assert(texts(names@).take(i as int) == texts(names@));
    let sorted = sort_by_key(items);
    let mut out: Vec<String> = Vec::new();
    let mut j: usize = 0;
    assert(texts(out@) == names_of(keyed(sorted@)).take(0));
    while j < sorted.len()
        invariant
            j <= sorted.len(),
            texts(out@) == names_of(keyed(sorted@)).take(j as int),
        decreases sorted.len() - j,
    {
        let name = sorted[j].name.clone();
        assert(texts(out@.push(name)) =~= texts(out@).push(name@));
        assert(names_of(keyed(sorted@)).take(j + 1) =~= names_of(keyed(sorted@)).take(j as int).push(
            sorted@[j as int].name@,
        ));
        out.push(name);
        j += 1;
    }
    assert(names_of(keyed(sorted@)).take(j as int) == names_of(keyed(sorted@)));
    out
}

/// The names that a listing shows for `entries`: those of the
/// directories, each with a separator behind it, and those of the rest.
pub fn partition_entries(entries: &[DirEntry]) -> (r: (Vec<String>, Vec<String>))
    ensures
        texts(r.0@) == listed_dirs(entries@),
        texts(r.1@) == listed_files(entries@),
{
    let mut dirs: Vec<String> = Vec::new();
    let mut files: Vec<String> = Vec::new();
    let mut i: usize = 0;
    assert(entries@.take(0) == Seq::<DirEntry>::empty());
    assert(texts(dirs@) == Seq::<Seq<char>>::empty());
    assert(texts(files@) == Seq::<Seq<char>>::empty());
    while i < entries.len()
        invariant
            i <= entries.len(),
            texts(dirs@) == listed_dirs(entries@.take(i as int)),
            texts(files@) == listed_files(entries@.take(i as int)),
        decreases entries.len() - i,
    {
        let entry = &entries[i];
        let mut name = entry.name.clone();
        proof {
            assert(entries@.take(i + 1).drop_last() == entries@.take(i as int));
            assert(entries@.take(i + 1).last() == entries@[i as int]);
        }
        if entry.is_dir {
            name.append("/");
            assert(texts(dirs@.push(name)) == texts(dirs@).push(name@));
            dirs.push(name);
        } else {
            assert(texts(files@.push(name)) == texts(files@).push(name@));
            files.push(name);
        }
        i += 1;
    }
    assert(entries@.take(i as int) == entries@);
    (dirs, files)
}

/// Writes a line for each of `names` behind `text`, each linking to the
/// name joined to `base_url`; stops at the first name that cannot be
/// joined.
pub fn append_entry_lines(text: &mut String, names: &Vec<String>, base_url: &RequestUrl) -> (r:
    Result<(), UnlinkableEntry>)
    ensures
        match entry_lines(base_url@.source, texts(names@)) {
            Ok(lines) => r is Ok && final(text)@ == old(text)@ + lines,
            Err(name) => r matches Err(e) && e.name@ == name,
        },
{
    let mut i: usize = 0;
    assert(texts(names@).take(0) == Seq::<Seq<char>>::empty());
    assert(text@ + Seq::<char>::empty() == text@);
    while i < names.len()
        invariant
            i <= names.len(),
            entry_lines(base_url@.source, texts(names@).take(i as int)) is Ok,
            text@ == old(text)@ + entry_lines(base_url@.source, texts(names@).take(i as int))->Ok_0,
        decreases names.len() - i,
    {
        let name = names[i].as_str();
        proof {
            assert(texts(names@).take(i + 1).drop_last() == texts(names@).take(i as int));
            assert(texts(names@).take(i + 1).last() == name@);
        }
        match base_url.link_to(name) {
            Some(link) => {
                let ghost before = text@;
                text.append("=> ");
                text.append(link.as_str());
                text.append(" ");
                text.append(name);
                text.append("\n");
                assert(text@ == before + entry_line(link@, name@));
            },
            None => {
                proof {
                    lemma_entry_lines_prefix(base_url@.source, texts(names@), i + 1);
                }
                return Err(UnlinkableEntry { name: names[i].clone() });
            },
        }
        i += 1;
    }
    assert(texts(names@).take(i as int) == texts(names@));
    Ok(())
}

/// The lines for a list of names fail where the lines for a part of it,
/// taken from the front, fail, and with the same name.
pub proof fn lemma_entry_lines_prefix(source: Seq<char>, names: Seq<Seq<char>>, n: int)
    requires
        0 <= n <= names.len(),
        entry_lines(source, names.take(n)) is Err,
    ensures
        entry_lines(source, names) == entry_lines(source, names.take(n)),
    decreases names.len() - n,
{
    if n == names.len() {
        assert(names.take(n) == names);
    } else {
        assert(names.drop_last().take(n) == names.take(n));
        lemma_entry_lines_prefix(source, names.drop_last(), n);
    }
}

/// The listing of a directory with the entries `entries`, requested as
/// `base_url`: a heading, then the directories and then the other
/// entries, each group ordered without regard to case. Every line links
/// to the entry's name joined to `base_url`, with control characters
/// percent-encoded, and shows the name as it is.
pub fn generate_index(entries: &[DirEntry], base_url: &RequestUrl) -> (r: Result<
    String,
    UnlinkableEntry,
>)
    ensures
        match index_text(base_url@, entries@) {
            Ok(text) => r matches Ok(s) && s@ == text,
            Err(name) => r matches Err(e) && e.name@ == name,
        },
{
    let (dirs, files) = partition_entries(entries);
    let dirs = sort_names(dirs);
    let files = sort_names(files);
    let mut result = String::new();
    result.append("Index of ");
    result.append(base_url.as_str());
    result.append("\n\n");
    match append_entry_lines(&mut result, &dirs, base_url) {
        Ok(()) => {},
        Err(e) => {
            return Err(e);
        },
    }
    match append_entry_lines(&mut result, &files, base_url) {
        Ok(()) => {},
        Err(e) => {
            return Err(e);
        },
    }
    Ok(result)
}

/// Of two byte strings one comes before the other, or they are equal.
pub proof fn lemma_bytes_le_total(a: Seq<u8>, b: Seq<u8>)
    ensures
        bytes_le(a, b) || bytes_le(b, a),
    decreases a.len(),
{
    if a.len() > 0 && b.len() > 0 && a[0] == b[0] {
        lemma_bytes_le_total(a.skip(1), b.skip(1));
    }
}

/// The order of byte strings is transitive.
pub proof fn lemma_bytes_le_transitive(a: Seq<u8>, b: Seq<u8>, c: Seq<u8>)
    requires
        bytes_le(a, b),
        bytes_le(b, c),
    ensures
        bytes_le(a, c),
    decreases a.len(),
{
    if a.len() > 0 && b.len() > 0 && c.len() > 0 && a[0] == b[0] && b[0] == c[0] {
        lemma_bytes_le_transitive(a.skip(1), b.skip(1), c.skip(1));
    }
}

/// Where `item` goes into `sorted`: behind the last item that may stand
/// before it.
pub open spec fn insertion_point(sorted: Seq<Keyed>, item: Keyed) -> int
    decreases sorted.len(),
{
    if sorted.len() == 0 || before(sorted.last(), item) {
        sorted.len() as int
    } else {
        insertion_point(sorted.drop_last(), item)
    }
}

/// An item is put in at its insertion point: the item before that point
/// may stand before it, and no item from that point on may.
pub proof fn lemma_insertion_point(sorted: Seq<Keyed>, item: Keyed)
    ensures
        0 <= insertion_point(sorted, item) <= sorted.len(),
        insertion_point(sorted, item) > 0 ==> before(sorted[insertion_point(sorted, item) - 1], item),
        forall|j: int|
            insertion_point(sorted, item) <= j < sorted.len() ==> !before(#[trigger] sorted[j], item),
        inserted(sorted, item) == sorted.insert(insertion_point(sorted, item), item),
    decreases sorted.len(),
{
    if !(sorted.len() == 0 || before(sorted.last(), item)) {
        let shorter = sorted.drop_last();
        lemma_insertion_point(shorter, item);
        let at = insertion_point(shorter, item);
        assert forall|j: int| at <= j < sorted.len() implies !before(#[trigger] sorted[j], item) by {
            if j < shorter.len() {
                assert(shorter[j] == sorted[j]);
            }
        }
        if at > 0 {
            assert(shorter[at - 1] == sorted[at - 1]);
        }
    }
    lemma_inserted_at(sorted, item, insertion_point(sorted, item));
}

/// To put an item at a place into a sequence adds the item to what the
/// sequence holds, and nothing else.
pub proof fn lemma_insert_to_multiset<A>(items: Seq<A>, at: int, item: A)
    requires
        0 <= at <= items.len(),
    ensures
        items.insert(at, item).to_multiset() == items.to_multiset().insert(item),
{
    let longer = items.insert(at, item);
    assert(longer.remove(at) == items);
    assert(longer[at] == item);
    vstd::seq_lib::to_multiset_remove(longer, at);
    assert(longer.to_multiset().count(item) > 0) by {
        longer.to_multiset_ensures();
        assert(longer.contains(item));
    }
    assert(longer.to_multiset() =~= items.to_multiset().insert(item));
}

/// To put an item into an ordered list leaves the list ordered, and adds
/// the item to what the list holds and nothing else.
pub proof fn lemma_inserted(sorted: Seq<Keyed>, item: Keyed)
    ensures
        inserted(sorted, item).to_multiset() == sorted.to_multiset().insert(item),
        ordered(sorted) ==> ordered(inserted(sorted, item)),
{
    lemma_insertion_point(sorted, item);
    let at = insertion_point(sorted, item);
    let longer = sorted.insert(at, item);
    lemma_insert_to_multiset(sorted, at, item);
    if ordered(sorted) {
        assert forall|i: int, j: int| 0 <= i < j < longer.len() implies before(
            #[trigger] longer[i],
            #[trigger] longer[j],
        ) by {
            if j < at {
                assert(longer[i] == sorted[i] && longer[j] == sorted[j]);
            } else if j == at {
                assert(longer[i] == sorted[i]);
                if i < at - 1 {
                    assert(before(sorted[i], sorted[at - 1]));
                    lemma_bytes_le_transitive(
                        encode_utf8(sorted[i].0),
                        encode_utf8(sorted[at - 1].0),
                        encode_utf8(item.0),
                    );
                }
            } else if i < at {
                assert(longer[i] == sorted[i] && longer[j] == sorted[j - 1]);
            } else if i == at {
                assert(longer[j] == sorted[j - 1]);
                assert(!before(sorted[j - 1], item));
                lemma_bytes_le_total(encode_utf8(sorted[j - 1].0), encode_utf8(item.0));
            } else {
                assert(longer[i] == sorted[i - 1] && longer[j] == sorted[j - 1]);
            }
        }
    }
}

/// Sorted items stand in order: every item may stand before the items
/// behind it, by the bytes of their keys.
pub proof fn lemma_sorted_by_key_ordered(items: Seq<Keyed>)
    ensures
        ordered(sorted_by_key(items)),
    decreases items.len(),
{
    if items.len() > 0 {
        lemma_sorted_by_key_ordered(items.drop_last());
        lemma_inserted(sorted_by_key(items.drop_last()), items.last());
    }
}

/// Sorting keeps every item as often as it was given, and adds none.
pub proof fn lemma_sorted_by_key_permutation(items: Seq<Keyed>)
    ensures
        sorted_by_key(items).to_multiset() == items.to_multiset(),
        sorted_by_key(items).len() == items.len(),
    decreases items.len(),
{
    if items.len() == 0 {
        assert(sorted_by_key(items) == items);
    } else {
        lemma_sorted_by_key_permutation(items.drop_last());
        lemma_inserted(sorted_by_key(items.drop_last()), items.last());
        lemma_insertion_point(sorted_by_key(items.drop_last()), items.last());
        vstd::seq_lib::to_multiset_build(items.drop_last(), items.last());
        assert(items.drop_last().push(items.last()) == items);
    }
}

/// Items with the same key keep the order in which they came: an item
/// that is put in goes behind every item that may stand before it.
pub proof fn lemma_inserted_is_stable(sorted: Seq<Keyed>, item: Keyed, i: int)
    requires
        0 <= i < sorted.len(),
        before(sorted[i], item),
    ensures
        i < insertion_point(sorted, item),
{
    lemma_insertion_point(sorted, item);
}

/// The names of a listing are the names that were given, each as often
/// as it was given.
pub proof fn lemma_sorted_names_permutation(names: Seq<Seq<char>>)
    ensures
        sorted_names(names).to_multiset() == names.to_multiset(),
        sorted_names(names).len() == names.len(),
    decreases names.len(),
{
    if names.len() == 0 {
        assert(sorted_names(names) == names);
    } else {
        let shorter = names.drop_last();
        let item = (lowercased(names.last()), names.last());
        let sorted = sorted_by_key(with_keys(shorter));
        lemma_sorted_names_permutation(shorter);
        assert(with_keys(names).drop_last() == with_keys(shorter));
        assert(with_keys(names).last() == item);
        lemma_insertion_point(sorted, item);
        let at = insertion_point(sorted, item);
        assert(names_of(sorted.insert(at, item)) == names_of(sorted).insert(at, item.1));
        lemma_insert_to_multiset(names_of(sorted), at, item.1);
        vstd::seq_lib::to_multiset_build(shorter, names.last());
        assert(shorter.push(names.last()) == names);
    }
}

/// A listing names the directories before the other entries, and each
/// of the two groups without regard to case: in either group every
/// name stands before the names behind it by the bytes of their
/// lower-case forms, names with the same lower-case form stand in the
/// order in which they came, and the group holds the names that it was
/// given and no others.
pub proof fn lemma_listing_order(url: UrlView, entries: Seq<DirEntry>)
    ensures
        ordered(sorted_by_key(with_keys(listed_dirs(entries)))),
        ordered(sorted_by_key(with_keys(listed_files(entries)))),
        sorted_names(listed_dirs(entries)).to_multiset() == listed_dirs(entries).to_multiset(),
        sorted_names(listed_files(entries)).to_multiset() == listed_files(entries).to_multiset(),
        index_text(url, entries) matches Ok(text) ==> entry_lines(
            url.source,
            sorted_names(listed_dirs(entries)),
        ) is Ok && entry_lines(url.source, sorted_names(listed_files(entries))) is Ok && text
            == "Index of "@ + url.text + "\n\n"@ + entry_lines(
            url.source,
            sorted_names(listed_dirs(entries)),
        )->Ok_0 + entry_lines(url.source, sorted_names(listed_files(entries)))->Ok_0,
{
    lemma_sorted_by_key_ordered(with_keys(listed_dirs(entries)));
    lemma_sorted_by_key_ordered(with_keys(listed_files(entries)));
    lemma_sorted_names_permutation(listed_dirs(entries));
    lemma_sorted_names_permutation(listed_files(entries));
}

} // verus!
