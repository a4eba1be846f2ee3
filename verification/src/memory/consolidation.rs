//! The outcome of a memory consolidation run.

use vstd::prelude::*;
use crate::keyed::entries_map;
use crate::providers::types::string_map_view;
use crate::text::{byte_len, lowercase_of, push_char, push_str, str_byte_len, strings_view, to_lower};
use super::episodic::{Episode, EpisodeModel};
use super::keywords::{split_words, whitespace_words};

verus! {

/// Result of a consolidation run.
#[derive(Debug)]
pub struct ConsolidationResult {
    /// Number of episodes processed
    pub episodes_processed: usize,
    /// Number of episodes merged
    pub episodes_merged: usize,
    /// Number of episodes pruned
    pub episodes_pruned: usize,
    /// Number of new concepts extracted
    pub concepts_extracted: usize,
    /// Number of associations created
    pub associations_created: usize,
    /// Duration of consolidation (milliseconds)
    pub duration_ms: u64,
    /// Any warnings or notes
    pub notes: Vec<String>,
}

impl Default for ConsolidationResult {
    fn default() -> (r: Self)
        ensures
            r.episodes_processed == 0,
            r.episodes_merged == 0,
            r.episodes_pruned == 0,
            r.concepts_extracted == 0,
            r.associations_created == 0,
            r.duration_ms == 0,
            r.notes@.len() == 0,
    {
        ConsolidationResult {
            episodes_processed: 0,
            episodes_merged: 0,
            episodes_pruned: 0,
            concepts_extracted: 0,
            associations_created: 0,
            duration_ms: 0,
            notes: Vec::new(),
        }
    }
}

impl ConsolidationResult {
    /// Whether any consolidation occurred: an episode merged or pruned, or a
    /// concept extracted.
    pub fn had_changes(&self) -> (b: bool)
        ensures
            b == (self.episodes_merged > 0 || self.episodes_pruned > 0 || self.concepts_extracted
                > 0),
    {
        self.episodes_merged > 0 || self.episodes_pruned > 0 || self.concepts_extracted > 0
    }
}

/// Whether a character counts as alphanumeric for `char::is_alphanumeric`
/// (Unicode's Alphabetic or Numeric property).
pub uninterp spec fn alphanumeric(c: char) -> bool;

/// Calls `char::is_alphanumeric`. The contract names the result: it
/// depends on the character alone.
#[verifier::external_body]
fn is_alphanumeric(c: char) -> (b: bool)
    ensures
        b == alphanumeric(c),
{
    c.is_alphanumeric()
}

/// The index of the first alphanumeric character at or after `i` (the
/// length when there is none).
pub open spec fn first_alnum_from(w: Seq<char>, i: int) -> int
    decreases w.len() - i,
{
    if i >= w.len() {
        w.len() as int
    } else if alphanumeric(w[i]) {
        i
    } else {
        first_alnum_from(w, i + 1)
    }
}

/// One past the index of the last alphanumeric character before `j` (0
/// when there is none).
pub open spec fn last_alnum_before(w: Seq<char>, j: int) -> int
    decreases j,
{
    if j <= 0 {
        0
    } else if alphanumeric(w[j - 1]) {
        j
    } else {
        last_alnum_before(w, j - 1)
    }
}

/// A word without its leading and trailing non-alphanumeric characters.
pub open spec fn trimmed(w: Seq<char>) -> Seq<char> {
    let start = first_alnum_from(w, 0);
    if start >= w.len() {
        Seq::empty()
    } else {
        w.subrange(start, last_alnum_before(w, w.len() as int))
    }
}

/// The concept words of a text: its words longer than four bytes, in
/// lowercase, trimmed of non-alphanumeric characters, the empty ones left
/// out, in order.
pub open spec fn concept_words_of(s: Seq<char>) -> Seq<Seq<char>> {
    whitespace_words(s).filter(|w: Seq<char>| byte_len(w) > 4).map_values(
        |w: Seq<char>| trimmed(lowercase_of(w)),
    ).filter(|w: Seq<char>| w.len() > 0)
}

proof fn lemma_first_alnum_bounds(w: Seq<char>, i: int)
    requires
        0 <= i <= w.len(),
    ensures
        i <= first_alnum_from(w, i) <= w.len(),
        first_alnum_from(w, i) < w.len() ==> alphanumeric(w[first_alnum_from(w, i)]),
        forall|k: int| i <= k < first_alnum_from(w, i) ==> !alphanumeric(#[trigger] w[k]),
    decreases w.len() - i,
{
    if i < w.len() && !alphanumeric(w[i]) {
        lemma_first_alnum_bounds(w, i + 1);
    }
}

proof fn lemma_last_alnum_bounds(w: Seq<char>, j: int)
    requires
        0 <= j <= w.len(),
    ensures
        0 <= last_alnum_before(w, j) <= j,
        last_alnum_before(w, j) > 0 ==> alphanumeric(w[last_alnum_before(w, j) - 1]),
        forall|k: int| last_alnum_before(w, j) <= k < j ==> !alphanumeric(#[trigger] w[k]),
    decreases j,
{
    if j > 0 && !alphanumeric(w[j - 1]) {
        lemma_last_alnum_bounds(w, j - 1);
    }
}

/// A word trimmed of non-alphanumeric characters at both ends (as
/// `str::trim_matches` with `!char::is_alphanumeric`).
fn trim_non_alphanumeric(w: &str) -> (r: (String, bool))
    ensures
        r.0@ == trimmed(w@),
        r.1 == (r.0@.len() > 0),
{
    let chars = crate::text::str_chars(w);
    let n = chars.len();
    let mut start: usize = 0;
    while start < n && !is_alphanumeric(chars[start])
        invariant
            chars@ == w@,
            n == chars@.len(),
            start <= n,
            first_alnum_from(w@, start as int) == first_alnum_from(w@, 0),
        decreases n - start,
    {
        start = start + 1;
    }
    proof {
        lemma_first_alnum_bounds(w@, 0);
    }
    let mut r = String::new();
    if start >= n {
        assert(r@ =~= trimmed(w@));
        return (r, false);
    }
    assert(first_alnum_from(w@, start as int) == start);
    let mut end: usize = n;
    while end > start && !is_alphanumeric(chars[end - 1])
        invariant
            chars@ == w@,
            n == chars@.len(),
            start < end <= n,
            alphanumeric(w@[start as int]),
            last_alnum_before(w@, end as int) == last_alnum_before(w@, n as int),
        decreases end,
    {
        end = end - 1;
    }
    assert(last_alnum_before(w@, end as int) == end);
    let mut i: usize = start;
    while i < end
        invariant
            chars@ == w@,
            start <= i <= end,
            end <= n,
            n == chars@.len(),
            r@ == w@.subrange(start as int, i as int),
        decreases end - i,
    {
        push_char(&mut r, chars[i]);
        i = i + 1;
        assert(r@ =~= w@.subrange(start as int, i as int));
    }
    (r, true)
}

/// The concept words of a text: its words longer than four bytes, in
/// lowercase, trimmed of non-alphanumeric characters, the empty ones left
/// out, in order.
pub fn concept_words(content: &str) -> (r: Vec<String>)
    ensures
        strings_view(r@) == concept_words_of(content@),
{
    let words = split_words(content);
    let ghost ws = strings_view(words@);
    let ghost long = |w: Seq<char>| byte_len(w) > 4;
    let ghost norm = |w: Seq<char>| trimmed(lowercase_of(w));
    let ghost nonempty = |w: Seq<char>| w.len() > 0;
    let mut r: Vec<String> = Vec::new();
    let mut i: usize = 0;
    while i < words.len()
        invariant
            i <= words@.len(),
            ws == strings_view(words@),
            long == (|w: Seq<char>| byte_len(w) > 4),
            norm == (|w: Seq<char>| trimmed(lowercase_of(w))),
            nonempty == (|w: Seq<char>| w.len() > 0),
            strings_view(r@) == ws.subrange(0, i as int).filter(long).map_values(norm).filter(
                nonempty,
            ),
        decreases words@.len() - i,
    {
        let ghost prefix = ws.subrange(0, i as int);
        let ghost before = r@;
        let ghost kept = prefix.filter(long);
        proof {
            assert(ws.subrange(0, i + 1).drop_last() =~= prefix);
            assert(ws.subrange(0, i + 1).last() == ws[i as int]);
            assert(ws[i as int] == words@[i as int]@);
            reveal(Seq::filter);
        }
        let w = words[i].as_str();
        if str_byte_len(w) > 4 {
            let lower = to_lower(w);
            let (t, nonempty_word) = trim_non_alphanumeric(lower.as_str());
            proof {
                assert(t@ == norm(ws[i as int]));
                assert(ws.subrange(0, i + 1).filter(long) == kept.push(ws[i as int]));
                assert(kept.push(ws[i as int]).map_values(norm) =~= kept.map_values(norm).push(
                    norm(ws[i as int]),
                ));
                assert(kept.map_values(norm).push(norm(ws[i as int])).drop_last() =~= kept.map_values(
                    norm,
                ));
                assert(kept.map_values(norm).push(norm(ws[i as int])).last() == norm(ws[i as int]));
            }
            if nonempty_word {
                r.push(t);
                proof {
                    assert(strings_view(r@) =~= strings_view(before).push(norm(ws[i as int])));
                }
            }
        } else {
            proof {
                assert(ws.subrange(0, i + 1).filter(long) == kept);
            }
        }
        i = i + 1;
    }
    assert(ws.subrange(0, ws.len() as int) =~= ws);
    r
}

/// How many times a word occurs.
pub open spec fn occurrences(words: Seq<Seq<char>>, w: Seq<char>) -> nat
    decreases words.len(),
{
    if words.len() == 0 {
        0
    } else {
        occurrences(words.drop_last(), w) + if words.last() == w {
            1nat
        } else {
            0nat
        }
    }
}

/// The distinct words in order of first occurrence.
pub open spec fn distinct_words(words: Seq<Seq<char>>) -> Seq<Seq<char>>
    decreases words.len(),
{
    if words.len() == 0 {
        Seq::empty()
    } else {
        let d = distinct_words(words.drop_last());
        if d.contains(words.last()) {
            d
        } else {
            d.push(words.last())
        }
    }
}

/// Each distinct word, in order of first occurrence, with its number of occurrences.
pub fn word_counts(words: &Vec<String>) -> (r: Vec<(String, usize)>)
    ensures
        r@.len() == distinct_words(strings_view(words@)).len(),
        forall|k: int|
            0 <= k < r@.len() ==> (#[trigger] r@[k]).0@ == distinct_words(strings_view(words@))[k]
                && r@[k].1 == occurrences(strings_view(words@), r@[k].0@),
{
    let ghost ws = strings_view(words@);
    let mut r: Vec<(String, usize)> = Vec::new();
    let mut i: usize = 0;
    while i < words.len()
        invariant
            i <= words@.len(),
            ws == strings_view(words@),
            r@.len() == distinct_words(ws.subrange(0, i as int)).len(),
            forall|k: int|
                0 <= k < r@.len() ==> (#[trigger] r@[k]).0@ == distinct_words(ws.subrange(0, i as int))[k]
                    && r@[k].1 == occurrences(ws.subrange(0, i as int), r@[k].0@),
            forall|k: int| 0 <= k < r@.len() ==> r@[k].1 <= i,
        decreases words@.len() - i,
    {
        let ghost prefix = ws.subrange(0, i as int);
        let ghost next = ws.subrange(0, i + 1);
        let ghost w = ws[i as int];
        proof {
            assert(next.drop_last() =~= prefix);
            assert(next.last() == w);
            assert(words@[i as int]@ == w);
        }
        let mut j: usize = 0;
        while j < r.len()
            invariant_except_break
                0 <= j <= r@.len(),
                forall|k: int| 0 <= k < j ==> (#[trigger] r@[k]).0@ != w,
            invariant
                i < words@.len(),
                w == words@[i as int]@,
            ensures
                0 <= j <= r@.len(),
                forall|k: int| 0 <= k < j ==> (#[trigger] r@[k]).0@ != w,
                j < r@.len() ==> r@[j as int].0@ == w,
            decreases r@.len() - j,
        {
            if crate::keyed::str_equal(r[j].0.as_str(), words[i].as_str()) {
                break;
            }
            j = j + 1;
        }
        let ghost before = r@;
        if j < r.len() {
            let count = r[j].1;
            let key = r[j].0.clone();
            r.set(j, (key, count + 1));
            proof {
                lemma_distinct_contains(prefix, w);
                assert(distinct_words(next) == distinct_words(prefix));
                assert forall|k: int| 0 <= k < r@.len() implies (#[trigger] r@[k]).0@ == distinct_words(next)[k]
                    && r@[k].1 == occurrences(next, r@[k].0@) by {
                    if k != j {
                        assert(r@[k] == before[k]);
                        lemma_distinct_unique(prefix, k, j as int);
                    }
                }
            }
        } else {
            r.push((words[i].clone(), 1));
            proof {
                assert(!distinct_words(prefix).contains(w)) by {
                    if distinct_words(prefix).contains(w) {
                        let k = choose|k: int| 0 <= k < distinct_words(prefix).len() && distinct_words(prefix)[k] == w;
                        assert(before[k].0@ == w);
                    }
                }
                lemma_not_distinct_absent(prefix, w);
                assert forall|k: int| 0 <= k < r@.len() implies (#[trigger] r@[k]).0@ == distinct_words(next)[k]
                    && r@[k].1 == occurrences(next, r@[k].0@) by {
                    if k < before.len() {
                        assert(r@[k] == before[k]);
                        assert(distinct_words(prefix)[k] != w) by {
                            if distinct_words(prefix)[k] == w {
                                assert(distinct_words(prefix).contains(w));
                            }
                        }
                    }
                }
            }
        }
        i = i + 1;
    }
    assert(ws.subrange(0, ws.len() as int) =~= ws);
    r
}

/// A word among the distinct words occurs somewhere.
proof fn lemma_distinct_contains(words: Seq<Seq<char>>, w: Seq<char>)
    ensures
        distinct_words(words).contains(w) <==> words.contains(w),
    decreases words.len(),
{
    if words.len() > 0 {
        lemma_distinct_contains(words.drop_last(), w);
        let d = distinct_words(words.drop_last());
        if words.contains(w) && w != words.last() {
            let k = choose|k: int| 0 <= k < words.len() && words[k] == w;
            assert(words.drop_last()[k] == w);
        }
        if words.drop_last().contains(w) {
            let k = choose|k: int| 0 <= k < words.drop_last().len() && words.drop_last()[k] == w;
            assert(words[k] == w);
        }
        if !d.contains(words.last()) {
            assert(d.push(words.last())[d.len() as int] == words.last());
            if d.push(words.last()).contains(w) && w != words.last() {
                let k = choose|k: int| 0 <= k < d.push(words.last()).len() && d.push(words.last())[k] == w;
                assert(d[k] == w);
            }
            if d.contains(w) {
                let k = choose|k: int| 0 <= k < d.len() && d[k] == w;
                assert(d.push(words.last())[k] == w);
            }
        }
        if w == words.last() {
            assert(words[words.len() - 1] == w);
        }
    }
}

/// The distinct words are distinct.
proof fn lemma_distinct_unique(words: Seq<Seq<char>>, a: int, b: int)
    requires
        0 <= a < distinct_words(words).len(),
        0 <= b < distinct_words(words).len(),
        a != b,
    ensures
        distinct_words(words)[a] != distinct_words(words)[b],
    decreases words.len(),
{
    if words.len() > 0 {
        let d = distinct_words(words.drop_last());
        if d.contains(words.last()) {
            lemma_distinct_unique(words.drop_last(), a, b);
        } else {
            if a < d.len() && b < d.len() {
                lemma_distinct_unique(words.drop_last(), a, b);
            } else if a < d.len() {
                assert(d.contains(d[a]));
            } else {
                assert(d.contains(d[b]));
            }
        }
    }
}

/// A word that is not among the distinct words does not occur, and adding
/// it adds it last.
proof fn lemma_not_distinct_absent(words: Seq<Seq<char>>, w: Seq<char>)
    requires
        !distinct_words(words).contains(w),
    ensures
        occurrences(words, w) == 0,
        forall|x: Seq<char>| x != w ==> occurrences(words.push(w), x) == occurrences(words, x),
    decreases words.len(),
{
    lemma_distinct_contains(words, w);
    lemma_occurrences_absent(words, w);
    assert(words.push(w).drop_last() =~= words);
}

proof fn lemma_occurrences_absent(words: Seq<Seq<char>>, w: Seq<char>)
    requires
        !words.contains(w),
    ensures
        occurrences(words, w) == 0,
    decreases words.len(),
{
    if words.len() > 0 {
        assert(words.last() != w) by {
            if words.last() == w {
                assert(words[words.len() - 1] == w);
            }
        }
        assert(!words.drop_last().contains(w)) by {
            if words.drop_last().contains(w) {
                let k = choose|k: int| 0 <= k < words.drop_last().len() && words.drop_last()[k] == w;
                assert(words[k] == w);
            }
        }
        lemma_occurrences_absent(words.drop_last(), w);
    }
}

/// The merged content of two episodes: the first's, a separator line, the second's.
pub open spec fn merged_content(a: Seq<char>, b: Seq<char>) -> Seq<char> {
    a + "\n---\n"@ + b
}

/// The episode two merge into: the earlier one (the second when they have
/// the same timestamp) keeps its identity, with both contents, the given
/// importance, the larger access count, the other's metadata where its
/// own has none, and the other's id under `merged_from`.
pub open spec fn merged_model(a: EpisodeModel, b: EpisodeModel, importance_bits: u32) -> EpisodeModel {
    let (p, s) = if a.timestamp_nanos < b.timestamp_nanos {
        (a, b)
    } else {
        (b, a)
    };
    EpisodeModel {
        content: merged_content(p.content, s.content),
        importance_bits,
        access_count: if p.access_count >= s.access_count {
            p.access_count
        } else {
            s.access_count
        },
        metadata: s.metadata.union_prefer_right(p.metadata).insert("merged_from"@, s.id),
        ..p
    }
}

/// Merge two episodes (see `merged_model`). The merged importance, the mean
/// of the two `f32` importances, is computed in floating point by the
/// caller and given as bits.
pub fn merge_episodes(a: &Episode, b: &Episode, importance_bits: u32) -> (m: Episode)
    requires
        a.wf(),
        b.wf(),
    ensures
        m.wf(),
        m@ == merged_model(a@, b@, importance_bits),
{
    let (primary, secondary) = if a.timestamp_nanos < b.timestamp_nanos {
        (a, b)
    } else {
        (b, a)
    };
    let mut merged = primary.duplicate();
    let mut content = String::new();
    push_str(&mut content, primary.content.as_str());
    push_str(&mut content, "\n---\n");
    push_str(&mut content, secondary.content.as_str());
    assert(content@ =~= merged_content(primary.content@, secondary.content@));
    merged.content = content;
    merged.importance_bits = importance_bits;
    merged.access_count = if primary.access_count >= secondary.access_count {
        primary.access_count
    } else {
        secondary.access_count
    };
    let n = secondary.metadata.entry_count();
    let ghost es = secondary.metadata.entry_seq();
    let ghost pm = string_map_view(primary.metadata.view());
    let ghost shape = merged@;
    proof {
        secondary.metadata.lemma_view_is_entries();
        secondary.metadata.lemma_wf_is_unique();
        assert(string_map_view(entries_map(es.subrange(0, 0))).union_prefer_right(pm) =~= pm);
    }
    let mut i: usize = 0;
    while i < n
        invariant
            es == secondary.metadata.entry_seq(),
            n == es.len(),
            i <= n,
            merged.metadata.wf(),
            merged@ == (EpisodeModel { metadata: merged@.metadata, ..shape }),
            crate::keyed::keys_unique(es),
            string_map_view(merged.metadata.view()) == string_map_view(
                entries_map(es.subrange(0, i as int)),
            ).union_prefer_right(pm),
        decreases n - i,
    {
        let (k, v) = secondary.metadata.entry_at(i);
        let ghost prev = string_map_view(entries_map(es.subrange(0, i as int)));
        let ghost before = string_map_view(merged.metadata.view());
        proof {
            assert(es.subrange(0, i + 1).drop_last() =~= es.subrange(0, i as int));
            assert(es.subrange(0, i + 1).last() == es[i as int]);
            assert(string_map_view(entries_map(es.subrange(0, i + 1))) =~= prev.insert(k@, v@));
            crate::keyed::lemma_entries_map_dom(es.subrange(0, i as int), k@);
            assert(prev.dom() =~= entries_map(es.subrange(0, i as int)).dom());
            assert(!prev.dom().contains(k@)) by {
                if prev.dom().contains(k@) {
                    let j = choose|j: int| 0 <= j < i && #[trigger] es.subrange(0, i as int)[j].0@ == k@;
                    assert(es[j].0@ == es[i as int].0@);
                }
            }
        }
        if !merged.metadata.contains_key(k.as_str()) {
            assert(!before.dom().contains(k@));
            assert(!pm.dom().contains(k@));
            merged.metadata.insert(k.clone(), v.clone());
            assert(string_map_view(merged.metadata.view()) =~= before.insert(k@, v@));
            assert(string_map_view(merged.metadata.view()) =~= prev.insert(k@, v@).union_prefer_right(pm));
        } else {
            assert(before.dom().contains(k@));
            assert(before =~= prev.insert(k@, v@).union_prefer_right(pm));
        }
        i = i + 1;
    }
    assert(es.subrange(0, n as int) =~= es);
    let ghost before_tag = string_map_view(merged.metadata.view());
    merged.metadata.insert("merged_from".to_owned(), secondary.id.0.clone());
    proof {
        assert(string_map_view(merged.metadata.view()) =~= before_tag.insert(
            "merged_from"@,
            secondary.id.0@,
        ));
    }
    merged
}

// =============================================================================
// RANKING WORDS BY COUNT
// =============================================================================

/// Counted words as plain values.
pub open spec fn counted_view(v: Seq<(String, usize)>) -> Seq<(Seq<char>, usize)> {
    v.map_values(|p: (String, usize)| (p.0@, p.1))
}

/// Inserts a counted word after every pair whose count is at least its own.
pub open spec fn insert_by_count(s: Seq<(Seq<char>, usize)>, x: (Seq<char>, usize)) -> Seq<(Seq<char>, usize)>
    decreases s.len(),
{
    if s.len() == 0 {
        seq![x]
    } else if s.last().1 >= x.1 {
        s.push(x)
    } else {
        insert_by_count(s.drop_last(), x).push(s.last())
    }
}

/// Counted words by descending count, equal counts in their given order
/// (what a stable sort by descending count gives).
pub open spec fn sort_by_count(s: Seq<(Seq<char>, usize)>) -> Seq<(Seq<char>, usize)>
    decreases s.len(),
{
    if s.len() == 0 {
        Seq::empty()
    } else {
        insert_by_count(sort_by_count(s.drop_last()), s.last())
    }
}

/// Insertion at position `p`, where every later pair has a smaller count
/// and the pair before (if any) does not, is `insert_by_count`.
proof fn lemma_insert_by_count_at(s: Seq<(Seq<char>, usize)>, x: (Seq<char>, usize), p: int)
    requires
        0 <= p <= s.len(),
        forall|k: int| p <= k < s.len() ==> #[trigger] s[k].1 < x.1,
        p > 0 ==> s[p - 1].1 >= x.1,
    ensures
        insert_by_count(s, x) == s.subrange(0, p).push(x) + s.subrange(p, s.len() as int),
    decreases s.len(),
{
    if s.len() == 0 {
        assert(s.subrange(0, 0).push(x) + s.subrange(0, 0) =~= seq![x]);
    } else if p == s.len() {
        assert(s.subrange(0, p) =~= s);
        assert(s.subrange(0, p).push(x) + s.subrange(p, s.len() as int) =~= s.push(x));
    } else {
        let init = s.drop_last();
        assert(s.last().1 < x.1);
        lemma_insert_by_count_at(init, x, p);
        assert(init.subrange(0, p) =~= s.subrange(0, p));
        assert((init.subrange(0, p).push(x) + init.subrange(p, init.len() as int)).push(s.last())
            =~= s.subrange(0, p).push(x) + s.subrange(p, s.len() as int));
    }
}

/// The `n` most frequent words: the counted words by descending count,
/// equal counts in their given order, cut to the first `n`.
pub fn top_by_count(counts: &Vec<(String, usize)>, n: usize) -> (r: Vec<(String, usize)>)
    ensures
        counted_view(r@) == sort_by_count(counted_view(counts@)).take(
            if n < counts@.len() { n as int } else { counts@.len() as int },
        ),
{
    let ghost input = counted_view(counts@);
    let mut r: Vec<(String, usize)> = Vec::new();
    let mut i: usize = 0;
    while i < counts.len()
        invariant
            i <= counts@.len(),
            input == counted_view(counts@),
            counted_view(r@) == sort_by_count(input.subrange(0, i as int)),
            r@.len() == i,
        decreases counts@.len() - i,
    {
        let ghost before = counted_view(r@);
        let x = (counts[i].0.clone(), counts[i].1);
        let ghost xv = (x.0@, x.1);
        let mut p: usize = r.len();
        while p > 0 && r[p - 1].1 < x.1
            invariant
                p <= r@.len(),
                counted_view(r@) == before,
                forall|k: int| p <= k < before.len() ==> #[trigger] before[k].1 < xv.1,
                xv.1 == x.1,
            decreases p,
        {
            assert(before[p - 1].1 == r@[p - 1].1);
            p = p - 1;
        }
        proof {
            if p > 0 {
                assert(before[p - 1].1 == r@[p - 1].1);
            }
            lemma_insert_by_count_at(before, xv, p as int);
            assert(input.subrange(0, i + 1).drop_last() =~= input.subrange(0, i as int));
            assert(input.subrange(0, i + 1).last() == xv);
        }
        r.insert(p, x);
        assert(counted_view(r@) =~= before.subrange(0, p as int).push(xv) + before.subrange(
            p as int,
            before.len() as int,
        ));
        i = i + 1;
    }
    assert(input.subrange(0, counts@.len() as int) =~= input);
    if n < r.len() {
        r.truncate(n);
    }
    assert(counted_view(r@) =~= sort_by_count(input).take(
        if n < counts@.len() { n as int } else { counts@.len() as int },
    ));
    r
}

} // verus!
