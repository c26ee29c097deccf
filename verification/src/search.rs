//! Fuzzy file search: live filtering of a listing with the skim fuzzy
//! matcher, and the rules the file index follows.

use vstd::prelude::*;
use crate::order::{SortKey, KeyView, key_views, sort_by_keys, stably_sorted};
use crate::platform::FileEntry;
use crate::text::{begins_with, chars_equal, chars_of, starts_with_char};

verus! {

#[verifier::external_type_specification]
#[verifier::external_body]
pub struct ExSkimMatcherV2(fuzzy_matcher::skim::SkimMatcherV2);

/// A search result with relevance score.
#[derive(Debug)]
pub struct SearchResult {
    /// Path to the matched file or directory.
    pub path: String,
    /// Display name.
    pub name: String,
    /// Whether it's a directory.
    pub is_dir: bool,
    /// Relevance score (higher = better match).
    pub score: i64,
}

impl Clone for SearchResult {
    fn clone(&self) -> (r: Self)
        ensures
            r == *self,
    {
        SearchResult { path: self.path.clone(), name: self.name.clone(), is_dir: self.is_dir, score: self.score }
    }
}

/// The score the default skim matcher gives `choice` for `pattern`, or
/// none when it does not match.
pub uninterp spec fn skim_match(choice: Seq<char>, pattern: Seq<char>) -> Option<i64>;

/// `char::eq_ignore_ascii_case` folds ASCII upper case to lower case.
pub open spec fn ascii_lower(c: char) -> char {
    if 'A' <= c && c <= 'Z' {
        ((c as u32) + 32) as char
    } else {
        c
    }
}

/// Whether a pattern holds an ASCII upper-case letter (the skim matcher's
/// "smart case": such a pattern matches case-sensitively).
pub open spec fn has_ascii_upper(p: Seq<char>) -> bool {
    exists|i: int| 0 <= i < p.len() && 'A' <= #[trigger] p[i] && p[i] <= 'Z'
}

/// Whether the characters of `pattern` occur in `choice` in order, compared
/// exactly or ignoring ASCII case.
pub open spec fn in_order(choice: Seq<char>, pattern: Seq<char>, case_sensitive: bool) -> bool
    decreases choice.len(),
{
    if pattern.len() == 0 {
        true
    } else if choice.len() == 0 {
        false
    } else if (if case_sensitive {
        choice[0] == pattern[0]
    } else {
        ascii_lower(choice[0]) == ascii_lower(pattern[0])
    }) {
        in_order(choice.drop_first(), pattern.drop_first(), case_sensitive)
    } else {
        in_order(choice.drop_first(), pattern, case_sensitive)
    }
}

/// `SkimMatcherV2::default()`.
#[verifier::external_body]
fn default_matcher() -> (m: fuzzy_matcher::skim::SkimMatcherV2) {
    fuzzy_matcher::skim::SkimMatcherV2::default()
}

/// `FuzzyMatcher::fuzzy_match` of a matcher made by `default_matcher` (the
/// only way this library makes one): its result is named `skim_match`; an
/// empty pattern scores 0, and there is a score exactly when the pattern's
/// characters occur in the choice in order (ignoring ASCII case unless the
/// pattern holds an ASCII upper-case letter).
#[verifier::external_body]
fn skim_score(matcher: &fuzzy_matcher::skim::SkimMatcherV2, choice: &str, pattern: &str) -> (r: Option<i64>)
    ensures
        r == skim_match(choice@, pattern@),
        pattern@.len() == 0 ==> r == Some(0i64),
        r is Some <==> in_order(choice@, pattern@, has_ascii_upper(pattern@)),
{
    fuzzy_matcher::FuzzyMatcher::fuzzy_match(matcher, choice, pattern)
}

/// Search engine with fuzzy matching.
pub struct SearchEngine {
    matcher: fuzzy_matcher::skim::SkimMatcherV2,
}

/// The result for an entry with a score.
pub open spec fn result_of(e: FileEntry, score: i64) -> SearchResult {
    SearchResult { path: e.path, name: e.name, is_dir: e.is_dir, score }
}

/// Every entry as a result scored 0, in order.
pub open spec fn unscored(es: Seq<FileEntry>) -> Seq<SearchResult> {
    es.map_values(|e: FileEntry| result_of(e, 0))
}

/// The entries that have a score, in order, as results with that score
/// (`scores[i]` is the score of `es[i]`, none where it does not match).
pub open spec fn scored(es: Seq<FileEntry>, scores: Seq<Option<i64>>) -> Seq<SearchResult>
    decreases es.len(),
{
    if es.len() == 0 {
        Seq::empty()
    } else {
        let rest = scored(es.drop_last(), scores.drop_last());
        match scores.last() {
            Some(s) => rest.push(result_of(es.last(), s)),
            None => rest,
        }
    }
}

/// The skim score of each entry's name for a query.
pub open spec fn skim_scores(es: Seq<FileEntry>, query: Seq<char>) -> Seq<Option<i64>> {
    es.map_values(|e: FileEntry| skim_match(e.name@, query))
}

/// The entries whose names the query matches, in order, with their scores.
pub open spec fn hits(es: Seq<FileEntry>, query: Seq<char>) -> Seq<SearchResult> {
    scored(es, skim_scores(es, query))
}

/// Results are ordered by score, highest first.
pub open spec fn score_key(r: SearchResult) -> KeyView {
    (0u8, Seq::empty(), r.score as int, true)
}

/// The keys of a sequence of results under `score_key`.
pub open spec fn score_keys(rs: Seq<SearchResult>) -> Seq<KeyView> {
    rs.map_values(|r: SearchResult| score_key(r))
}

impl SearchEngine {
    /// Create a new search engine.
    pub fn new() -> (e: Self) {
        SearchEngine { matcher: default_matcher() }
    }

    /// Fuzzy search through a list of file entries: with an empty query
    /// every entry, in order, scored 0; otherwise the entries whose names
    /// match, ordered by score from highest, equal scores keeping their
    /// order.
    pub fn fuzzy_search(&self, query: &str, entries: &Vec<FileEntry>) -> (out: Vec<SearchResult>)
        ensures
            query@.len() == 0 ==> out@ == unscored(entries@),
            query@.len() > 0 ==> stably_sorted(out@, hits(entries@, query@), score_keys(hits(entries@, query@))),
            forall|k: int|
                0 <= k < out@.len() ==> in_order((#[trigger] out@[k]).name@, query@, has_ascii_upper(query@)),
            query@.len() > 0 ==> forall|j: int|
                0 <= j < entries@.len() ==> (#[trigger] skim_match(entries@[j].name@, query@) is Some <==> in_order(
                    entries@[j].name@,
                    query@,
                    has_ascii_upper(query@),
                )),
            query@.len() > 0 ==> forall|j: int|
                0 <= j < entries@.len() && in_order(entries@[j].name@, query@, has_ascii_upper(query@))
                    ==> out@.contains(
                    result_of(entries@[j], (#[trigger] skim_match(entries@[j].name@, query@))->Some_0),
                ),
    {
        if query.unicode_len() == 0 {
            let mut out: Vec<SearchResult> = Vec::new();
            let mut i: usize = 0;
            while i < entries.len()
                invariant
                    i <= entries.len(),
                    out@ == unscored(entries@.take(i as int)),
                decreases entries.len() - i,
            {
                let e = &entries[i];
                out.push(SearchResult { path: e.path.clone(), name: e.name.clone(), is_dir: e.is_dir, score: 0 });
                i = i + 1;
                assert(out@ =~= unscored(entries@.take(i as int)));
            }
            assert(entries@.take(entries.len() as int) =~= entries@);
            return out;
        }
        let mut scores: Vec<Option<i64>> = Vec::new();
        let mut i: usize = 0;
        while i < entries.len()
            invariant
                i <= entries.len(),
                scores@ == skim_scores(entries@.take(i as int), query@),
                forall|j: int|
                    0 <= j < i ==> ((#[trigger] scores@[j]) is Some <==> in_order(
                        entries@[j].name@,
                        query@,
                        has_ascii_upper(query@),
                    )),
            decreases entries.len() - i,
        {
            let score = skim_score(&self.matcher, entries[i].name.as_str(), query);
            scores.push(score);
            i = i + 1;
            assert(scores@ =~= skim_scores(entries@.take(i as int), query@));
        }
        assert(entries@.take(entries.len() as int) =~= entries@);
        assert forall|j: int| 0 <= j < entries@.len() implies (#[trigger] skim_match(
            entries@[j].name@,
            query@,
        ) is Some <==> in_order(entries@[j].name@, query@, has_ascii_upper(query@))) by {
            assert(scores@[j] == skim_match(entries@[j].name@, query@));
        }
        let out = rank_matches(entries, &scores);
        proof {
            assert forall|j: int|
                0 <= j < entries@.len() && in_order(entries@[j].name@, query@, has_ascii_upper(query@))
                    implies out@.contains(
                result_of(entries@[j], (#[trigger] skim_match(entries@[j].name@, query@))->Some_0),
            ) by {
                assert(scores@[j] == skim_match(entries@[j].name@, query@));
            }
            assert forall|k: int| 0 <= k < out@.len() implies in_order(
                (#[trigger] out@[k]).name@,
                query@,
                has_ascii_upper(query@),
            ) by {
                let j = choose|j: int|
                    0 <= j < entries.len() && scores@[j] == Some(out@[k].score) && out@[k] == result_of(
                        entries@[j],
                        out@[k].score,
                    );
                assert(scores@[j] is Some);
            }
        }
        out
    }
}

proof fn lemma_scored_contains(es: Seq<FileEntry>, ss: Seq<Option<i64>>, j: int)
    requires
        es.len() == ss.len(),
        0 <= j < es.len(),
        ss[j] is Some,
    ensures
        scored(es, ss).contains(result_of(es[j], ss[j]->Some_0)),
    decreases es.len(),
{
    let rest = scored(es.drop_last(), ss.drop_last());
    if j == es.len() - 1 {
        assert(scored(es, ss) == rest.push(result_of(es.last(), ss.last()->Some_0)));
        assert(scored(es, ss)[rest.len() as int] == result_of(es[j], ss[j]->Some_0));
    } else {
        lemma_scored_contains(es.drop_last(), ss.drop_last(), j);
        let x = result_of(es[j], ss[j]->Some_0);
        assert(es.drop_last()[j] == es[j] && ss.drop_last()[j] == ss[j]);
        let i = choose|i: int| 0 <= i < rest.len() && rest[i] == x;
        match ss.last() {
            Some(sc) => {
                assert(scored(es, ss)[i] == x);
            },
            None => {},
        }
    }
}

/// The results for entries given each entry's score (none where it does
/// not match): the entries that have one, ordered by score from highest,
/// equal scores keeping their order.
pub fn rank_matches(entries: &Vec<FileEntry>, scores: &Vec<Option<i64>>) -> (out: Vec<SearchResult>)
    requires
        entries.len() == scores.len(),
    ensures
        stably_sorted(out@, scored(entries@, scores@), score_keys(scored(entries@, scores@))),
        forall|j: int|
            0 <= j < entries.len() && (#[trigger] scores@[j]) is Some ==> out@.contains(
                result_of(entries@[j], scores@[j]->Some_0),
            ),
        forall|k: int|
            0 <= k < out@.len() ==> exists|j: int|
                0 <= j < entries.len() && scores@[j] == Some((#[trigger] out@[k]).score) && out@[k] == result_of(
                    entries@[j],
                    out@[k].score,
                ),
{
    let mut found: Vec<SearchResult> = Vec::new();
    let mut keys: Vec<SortKey> = Vec::new();
    let mut i: usize = 0;
    while i < entries.len()
        invariant
            i <= entries.len(),
            entries.len() == scores.len(),
            found@ == scored(entries@.take(i as int), scores@.take(i as int)),
            key_views(keys@) == score_keys(found@),
            forall|k: int|
                0 <= k < found@.len() ==> exists|j: int|
                    0 <= j < i && scores@[j] == Some((#[trigger] found@[k]).score) && found@[k] == result_of(
                        entries@[j],
                        found@[k].score,
                    ),
        decreases entries.len() - i,
    {
        let e = &entries[i];
        assert(entries@.take(i + 1).drop_last() =~= entries@.take(i as int));
        assert(scores@.take(i + 1).drop_last() =~= scores@.take(i as int));
        match scores[i] {
            Some(score) => {
                let r = SearchResult { path: e.path.clone(), name: e.name.clone(), is_dir: e.is_dir, score };
                let k = SortKey { rank: 0, text: Vec::new(), num: score as i128, descending: true };
                assert(k.text@ =~= Seq::<char>::empty());
                assert(k@ == score_key(r));
                let ghost old_found = found@;
                let ghost old_keys = keys@;
                found.push(r);
                keys.push(k);
                assert(key_views(keys@) =~= key_views(old_keys).push(k@));
                assert(score_keys(found@) =~= score_keys(old_found).push(score_key(r)));
                assert(found@[found@.len() - 1] == result_of(entries@[i as int], score));
            },
            None => {},
        }
        i = i + 1;
    }
    assert(entries@.take(entries.len() as int) =~= entries@);
    assert(scores@.take(scores.len() as int) =~= scores@);
    let ghost inp = found@;
    let out = sort_by_keys(found, keys);
    proof {
        let ks = score_keys(inp);
        let perm = choose|perm: Seq<int>| crate::order::arranged_by(perm, out@, inp, ks);
        assert forall|k: int| 0 <= k < out@.len() implies exists|j: int|
            0 <= j < entries.len() && scores@[j] == Some((#[trigger] out@[k]).score) && out@[k] == result_of(
                entries@[j],
                out@[k].score,
            ) by {
            assert(out@[k] == inp[perm[k]]);
            assert(inp[perm[k]] == found@[perm[k]]);
        }
        crate::order::lemma_arranged_bijective(perm, out@, inp, ks);
        assert forall|j: int| 0 <= j < entries.len() && (#[trigger] scores@[j]) is Some implies out@.contains(
            result_of(entries@[j], scores@[j]->Some_0),
        ) by {
            lemma_scored_contains(entries@, scores@, j);
            let x = result_of(entries@[j], scores@[j]->Some_0);
            let t = choose|t: int| 0 <= t < inp.len() && inp[t] == x;
            assert(perm.contains(t));
            let i = choose|i: int| 0 <= i < perm.len() && perm[i] == t;
            assert(out@[i] == x);
        }
    }
    out
}

impl Default for SearchEngine {
    fn default() -> (e: Self) {
        SearchEngine::new()
    }
}

/// Whether a directory entry is left out of the file index: hidden (dot)
/// entries and the usual build and dependency directories.
pub open spec fn skipped_by_index(name: Seq<char>) -> bool {
    starts_with_char(name, '.') || name == "node_modules"@ || name == "target"@ || name == "__pycache__"@
}

/// Whether the file index skips an entry of this name (and, for a
/// directory, everything below it).
pub fn skip_when_indexing(name: &str) -> (r: bool)
    ensures
        r == skipped_by_index(name@),
{
    let v = chars_of(name);
    begins_with(name, '.') || chars_equal(&v, "node_modules") || chars_equal(&v, "target") || chars_equal(
        &v,
        "__pycache__",
    )
}

} // verus!
