//! The rules behind the file tools the MCP server offers: which entries a
//! listing shows and in what order, how much of a text file a preview
//! returns, and what a filesystem search reports. Reading the filesystem
//! and encoding replies as JSON are the server's.

use vstd::prelude::*;
use crate::order::{SortKey, KeyView, key_views, sort_by_keys, stably_sorted};
use crate::text::{
    begins_with, chars_equal, chars_of, contains_chars, contains_seq, index_of_char,
    lemma_index_of_char, lowercase, owned, slice_chars, starts_with_char, string_of, to_lower,
};

verus! {

/// One entry of a directory listing reply.
#[derive(Debug)]
pub struct ListedItem {
    pub name: String,
    pub is_dir: bool,
    /// Size in bytes; none for a directory or when metadata could not be read.
    pub size: Option<u64>,
}

impl Clone for ListedItem {
    fn clone(&self) -> (r: Self)
        ensures
            r == *self,
    {
        ListedItem { name: self.name.clone(), is_dir: self.is_dir, size: self.size }
    }
}

/// Whether a listing shows an entry: hidden (dot) entries only on request.
pub open spec fn listed(name: Seq<char>, show_hidden: bool) -> bool {
    show_hidden || !starts_with_char(name, '.')
}

/// Whether a listing shows an entry of this name.
pub fn lists_entry(name: &str, show_hidden: bool) -> (r: bool)
    ensures
        r == listed(name@, show_hidden),
{
    show_hidden || !begins_with(name, '.')
}

/// The listing item for an entry from its metadata (whether it is a
/// directory, and its length), when that could be read: no metadata counts
/// as a file of unknown size.
pub fn listed_item(name: String, meta: Option<(bool, u64)>) -> (r: ListedItem)
    ensures
        r.name == name,
        r.is_dir == (meta is Some && meta.unwrap().0),
        r.size == (if r.is_dir {
            None
        } else {
            match meta {
                Some(m) => Some(m.1),
                None => None,
            }
        }),
{
    let is_dir = match meta {
        Some(m) => m.0,
        None => false,
    };
    let size = if is_dir {
        None
    } else {
        match meta {
            Some(m) => Some(m.1),
            None => None,
        }
    };
    ListedItem { name, is_dir, size }
}

/// The order of a listing sorted by size: largest first, unknown sizes as 0.
pub open spec fn size_key(item: ListedItem) -> KeyView {
    (
        0u8,
        Seq::empty(),
        match item.size {
            Some(n) => n as int,
            None => 0,
        },
        true,
    )
}

/// The default order of a listing: directories first, then by lower-cased
/// name.
pub open spec fn name_key(item: ListedItem) -> KeyView {
    (if item.is_dir { 0u8 } else { 1u8 }, lowercase(item.name@), 0, false)
}

/// The keys of a listing under the requested order: `"size"`, else by name.
pub open spec fn listing_keys(items: Seq<ListedItem>, by_size: bool) -> Seq<KeyView> {
    items.map_values(|i: ListedItem| if by_size { size_key(i) } else { name_key(i) })
}

/// Order a listing: by size (largest first) when `sort` is `"size"`,
/// otherwise directories first and then by lower-cased name; equal keys
/// keep their order.
pub fn order_listing(items: Vec<ListedItem>, sort: &str) -> (out: Vec<ListedItem>)
    ensures
        stably_sorted(out@, items@, listing_keys(items@, sort@ == "size"@)),
{
    let sv = chars_of(sort);
    let by_size = chars_equal(&sv, "size");
    let mut keys: Vec<SortKey> = Vec::new();
    let mut i: usize = 0;
    while i < items.len()
        invariant
            i <= items.len(),
            keys.len() == i,
            forall|k: int|
                0 <= k < i ==> (#[trigger] keys@[k])@ == (if by_size {
                    size_key(items@[k])
                } else {
                    name_key(items@[k])
                }),
        decreases items.len() - i,
    {
        let item = &items[i];
        let key = if by_size {
            let n: u64 = match item.size {
                Some(n) => n,
                None => 0,
            };
            SortKey { rank: 0, text: Vec::new(), num: n as i128, descending: true }
        } else {
            let lower = to_lower(item.name.as_str());
            SortKey { rank: if item.is_dir { 0 } else { 1 }, text: chars_of(lower.as_str()), num: 0, descending: false }
        };
        assert(key.text@ =~= (if by_size {
            size_key(items@[i as int])
        } else {
            name_key(items@[i as int])
        }).1);
        keys.push(key);
        i = i + 1;
    }
    assert(key_views(keys@) =~= listing_keys(items@, by_size));
    sort_by_keys(items, keys)
}

/// A line without one trailing carriage return.
pub open spec fn strip_cr(l: Seq<char>) -> Seq<char> {
    if l.len() > 0 && l.last() == '\r' {
        l.drop_last()
    } else {
        l
    }
}

/// The lines of a text as `str::lines` splits it: at each `\n`, a `\r`
/// before it dropped too; a final line ending is optional.
pub open spec fn text_lines(s: Seq<char>) -> Seq<Seq<char>>
    decreases s.len(),
{
    if s.len() == 0 {
        Seq::empty()
    } else {
        let i = index_of_char(s, '\n');
        proof {
            lemma_index_of_char(s, '\n');
        }
        if i >= s.len() {
            seq![s]
        } else {
            seq![strip_cr(s.take(i))] + text_lines(s.skip(i + 1))
        }
    }
}

/// The texts of a sequence of strings.
pub open spec fn texts(ls: Seq<String>) -> Seq<Seq<char>> {
    ls.map_values(|s: String| s@)
}

fn line_without_cr(v: &Vec<char>, from: usize, to: usize) -> (r: String)
    requires
        from <= to <= v.len(),
    ensures
        r@ == strip_cr(v@.subrange(from as int, to as int)),
{
    let end = if to > from && v[to - 1] == '\r' {
        to - 1
    } else {
        to
    };
    let part = slice_chars(v, from, end);
    assert(part@ =~= strip_cr(v@.subrange(from as int, to as int)));
    string_of(&part)
}

/// Split a text into lines (see `text_lines`).
pub fn split_lines(s: &str) -> (r: Vec<String>)
    ensures
        texts(r@) == text_lines(s@),
{
    let v = chars_of(s);
    let n = v.len();
    let mut out: Vec<String> = Vec::new();
    let mut start: usize = 0;
    assert(v@.skip(0) =~= v@);
    assert(texts(out@) =~= Seq::<Seq<char>>::empty());
    while start < n
        invariant
            n == v.len(),
            v@ == s@,
            start <= n,
            texts(out@) + text_lines(v@.skip(start as int)) == text_lines(v@),
        decreases n - start,
    {
        let ghost rest = v@.skip(start as int);
        let mut j: usize = start;
        while j < n && v[j] != '\n'
            invariant
                start <= j <= n,
                n == v.len(),
                forall|k: int| start <= k < j ==> v@[k] != '\n',
            decreases n - j,
        {
            j = j + 1;
        }
        proof {
            lemma_index_of_char(rest, '\n');
            let idx = index_of_char(rest, '\n');
            if idx < j - start {
                assert(rest[idx] == v@[start + idx]);
            }
            if j < n {
                assert(rest[j - start] == '\n');
            }
            assert(idx == j - start);
        }
        let ghost before = texts(out@);
        if j == n {
            out.push(string_of(&slice_chars(&v, start, n)));
            proof {
                assert(rest =~= v@.subrange(start as int, n as int));
                assert(text_lines(rest) == seq![rest]);
                assert(v@.skip(n as int) =~= Seq::<char>::empty());
                assert(texts(out@) =~= before.push(rest));
                assert(texts(out@) + text_lines(v@.skip(n as int)) =~= before + text_lines(rest));
            }
            start = n;
        } else {
            let line = line_without_cr(&v, start, j);
            out.push(line);
            proof {
                assert(rest.take(j - start) =~= v@.subrange(start as int, j as int));
                assert(rest.skip(j - start + 1) =~= v@.skip(j + 1));
                assert(texts(out@) =~= before.push(strip_cr(rest.take(j - start))));
                assert(texts(out@) + text_lines(v@.skip(j + 1)) =~= before + text_lines(rest));
            }
            start = j + 1;
        }
    }
    proof {
        assert(v@.skip(start as int) =~= Seq::<char>::empty());
        assert(texts(out@) + Seq::<Seq<char>>::empty() =~= texts(out@));
    }
    out
}

/// The head of a text file that a preview reply holds.
pub struct TextWindow {
    /// The first `max_lines` lines.
    pub lines: Vec<String>,
    /// Whether the file has more lines than that.
    pub truncated: bool,
    /// How many lines the file has.
    pub total_lines: usize,
}

/// The first `max_lines` lines of a text, whether any were left out, and
/// how many lines it has.
pub fn text_window(content: &str, max_lines: usize) -> (r: TextWindow)
    ensures
        texts(r.lines@) == text_lines(content@).take(
            if max_lines < text_lines(content@).len() {
                max_lines as int
            } else {
                text_lines(content@).len() as int
            },
        ),
        r.truncated == (text_lines(content@).len() > max_lines),
        r.total_lines == text_lines(content@).len(),
{
    let all = split_lines(content);
    let total = all.len();
    let keep = if max_lines < total {
        max_lines
    } else {
        total
    };
    let mut lines: Vec<String> = Vec::new();
    let mut i: usize = 0;
    while i < keep
        invariant
            i <= keep,
            keep <= all.len(),
            texts(lines@) == texts(all@).take(i as int),
        decreases keep - i,
    {
        let ghost before = lines@;
        lines.push(all[i].clone());
        assert(texts(lines@) =~= texts(before).push(all@[i as int]@));
        i = i + 1;
        assert(texts(lines@) =~= texts(all@).take(i as int));
    }
    TextWindow { lines, truncated: total > max_lines, total_lines: total }
}

/// Whether a filesystem search passes over an entry (and what is below it):
/// hidden entries, `node_modules` and `target`.
pub open spec fn search_skipped(name: Seq<char>) -> bool {
    starts_with_char(name, '.') || name == "node_modules"@ || name == "target"@
}

/// Whether a search skips an entry of this name.
pub fn search_skips(name: &str) -> (r: bool)
    ensures
        r == search_skipped(name@),
{
    let v = chars_of(name);
    begins_with(name, '.') || chars_equal(&v, "node_modules") || chars_equal(&v, "target")
}

/// What a tree search does with the next entry of a directory.
#[derive(Debug, Clone, Copy, PartialEq, Eq, Structural)]
pub enum SearchStep {
    /// The result limit is reached: the whole search ends.
    Stop,
    /// The entry, and everything below it, is passed over.
    Skip,
    /// The entry's results are recorded (its text read first when
    /// `read_content`); a directory is then searched in turn.
    Visit { read_content: bool, descend: bool },
}

/// The step for an entry named `name`, with `found` results so far: stop at
/// the limit, pass over skipped names, otherwise record the entry, reading
/// the text of files when content search is on and descending into
/// directories.
pub open spec fn search_step_of(
    found: nat,
    limit: nat,
    name: Seq<char>,
    is_dir: bool,
    is_file: bool,
    search_content: bool,
) -> SearchStep {
    if found >= limit {
        SearchStep::Stop
    } else if search_skipped(name) {
        SearchStep::Skip
    } else {
        SearchStep::Visit { read_content: search_content && is_file, descend: is_dir }
    }
}

/// Decide the step of a tree search for one directory entry (see
/// `search_step_of`).
pub fn search_step(
    found: usize,
    limit: usize,
    name: &str,
    is_dir: bool,
    is_file: bool,
    search_content: bool,
) -> (s: SearchStep)
    ensures
        s == search_step_of(found as nat, limit as nat, name@, is_dir, is_file, search_content),
{
    if found >= limit {
        SearchStep::Stop
    } else if search_skips(name) {
        SearchStep::Skip
    } else {
        SearchStep::Visit { read_content: search_content && is_file, descend: is_dir }
    }
}

/// Whether an entry's name matches a (lower-cased) query: its lower-cased
/// form contains the query.
pub fn name_matches(name: &str, query_lower: &str) -> (r: bool)
    ensures
        r == contains_seq(lowercase(name@), query_lower@),
{
    let lower = to_lower(name);
    let hay = chars_of(lower.as_str());
    let needle = chars_of(query_lower);
    contains_chars(&hay, &needle)
}

/// The number (from 1) of the first line whose lower-cased form contains
/// the query, if any.
pub open spec fn first_line_with(lines: Seq<Seq<char>>, q: Seq<char>) -> Option<nat>
    decreases lines.len(),
{
    if lines.len() == 0 {
        None
    } else if contains_seq(lowercase(lines[0]), q) {
        Some(1)
    } else {
        match first_line_with(lines.drop_first(), q) {
            Some(n) => Some(n + 1),
            None => None,
        }
    }
}

/// A content match of a file: none when its lower-cased text does not
/// contain the (lower-cased) query, else the line of the first match,
/// which may be none when the query spans lines.
pub open spec fn content_hit(content: Seq<char>, q: Seq<char>) -> Option<Option<nat>> {
    if contains_seq(lowercase(content), q) {
        Some(first_line_with(text_lines(content), q))
    } else {
        None
    }
}

/// Whether a file's text matches a (lower-cased) query, and on which line
/// first (see `content_hit`).
pub fn content_match(content: &str, query_lower: &str) -> (r: Option<Option<usize>>)
    ensures
        match r {
            None => content_hit(content@, query_lower@) is None,
            Some(None) => content_hit(content@, query_lower@) == Some(None::<nat>),
            Some(Some(n)) => content_hit(content@, query_lower@) == Some(Some(n as nat)),
        },
{
    if !name_matches(content, query_lower) {
        return None;
    }
    let lines = split_lines(content);
    let ghost ls = texts(lines@);
    assert(ls.skip(0) =~= ls);
    let mut i: usize = 0;
    while i < lines.len()
        invariant
            i <= lines.len(),
            ls == texts(lines@),
            ls == text_lines(content@),
            contains_seq(lowercase(content@), query_lower@),
            forall|k: int| 0 <= k < i ==> !contains_seq(lowercase(#[trigger] ls[k]), query_lower@),
            first_line_with(ls, query_lower@) == (match first_line_with(ls.skip(i as int), query_lower@) {
                Some(n) => Some((n + i) as nat),
                None => None::<nat>,
            }),
        decreases lines.len() - i,
    {
        assert(ls.skip(i as int)[0] == ls[i as int]);
        assert(ls.skip(i as int).drop_first() =~= ls.skip(i + 1));
        assert(ls[i as int] == lines@[i as int]@);
        if name_matches(lines[i].as_str(), query_lower) {
            assert(first_line_with(ls.skip(i as int), query_lower@) == Some(1nat));
            return Some(Some(i + 1));
        }
        assert(first_line_with(ls.skip(i as int), query_lower@) == (match first_line_with(
            ls.skip(i + 1),
            query_lower@,
        ) {
            Some(n) => Some((n + 1) as nat),
            None => None::<nat>,
        }));
        i = i + 1;
    }
    assert(ls.skip(i as int) =~= Seq::<Seq<char>>::empty());
    Some(None)
}

/// How a search result matched.
#[derive(Debug, Clone, Copy, PartialEq, Eq, Structural)]
pub enum MatchKind {
    /// The entry's name contains the query.
    Filename,
    /// The file's text contains the query, first on this line (none when
    /// the match spans lines).
    Content { line: Option<usize> },
}

/// One result of a filesystem search.
#[derive(Debug)]
pub struct SearchHit {
    pub path: String,
    pub name: String,
    pub kind: MatchKind,
}

/// The results a search records for one entry: a name match first, then a
/// content match of its text (`content`, read only for files when content
/// search is on).
pub open spec fn entry_hits(
    name: Seq<char>,
    path: Seq<char>,
    query: Seq<char>,
    content: Option<Seq<char>>,
) -> Seq<(Seq<char>, Seq<char>, MatchKind)> {
    let by_name: Seq<(Seq<char>, Seq<char>, MatchKind)> = if contains_seq(lowercase(name), query) {
        seq![(path, name, MatchKind::Filename)]
    } else {
        Seq::empty()
    };
    let by_content: Seq<(Seq<char>, Seq<char>, MatchKind)> = match content {
        Some(text) => match content_hit(text, query) {
            Some(line) => seq![
                (
                    path,
                    name,
                    MatchKind::Content {
                        line: match line {
                            Some(n) => Some(n as usize),
                            None => None,
                        },
                    },
                ),
            ],
            None => Seq::empty(),
        },
        None => Seq::empty(),
    };
    by_name + by_content
}

/// The hits as plain values.
pub open spec fn hit_views(hits: Seq<SearchHit>) -> Seq<(Seq<char>, Seq<char>, MatchKind)> {
    hits.map_values(|h: SearchHit| (h.path@, h.name@, h.kind))
}

/// Record the results for one entry of a search (see `entry_hits`), after
/// those already found; the query is lower-cased.
pub fn record_hits(
    results: &mut Vec<SearchHit>,
    name: &str,
    path: &str,
    query_lower: &str,
    content: Option<&str>,
)
    ensures
        hit_views(final(results)@) == hit_views(old(results)@) + entry_hits(
            name@,
            path@,
            query_lower@,
            match content {
                Some(t) => Some(t@),
                None => None,
            },
        ),
{
    let ghost start = hit_views(results@);
    if name_matches(name, query_lower) {
        results.push(SearchHit { path: owned(path), name: owned(name), kind: MatchKind::Filename });
    }
    let ghost after_name = hit_views(results@);
    assert(after_name =~= start + (if contains_seq(lowercase(name@), query_lower@) {
        seq![(path@, name@, MatchKind::Filename)]
    } else {
        Seq::<(Seq<char>, Seq<char>, MatchKind)>::empty()
    }));
    match content {
        Some(text) => match content_match(text, query_lower) {
            Some(line) => {
                results.push(SearchHit { path: owned(path), name: owned(name), kind: MatchKind::Content { line } });
                proof {
                    let lv: Option<usize> = match content_hit(text@, query_lower@)->Some_0 {
                        Some(n) => Some(n as usize),
                        None => None,
                    };
                    assert(lv == line);
                }
            },
            None => {},
        },
        None => {},
    }
    assert(hit_views(results@) =~= start + entry_hits(
        name@,
        path@,
        query_lower@,
        match content {
            Some(t) => Some(t@),
            None => None,
        },
    ));
}

} // verus!
