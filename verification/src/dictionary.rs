//! Personal dictionary: custom words, proper nouns, and text replacements.
//!
//! Two jobs:
//! 1. Corrections: "jira" -> "Jira", "open source wisper" -> "OpenSourceWisper".
//! 2. Snippets: a spoken trigger expands to longer text ("my address" -> full address).

use crate::pattern::{escape, literal_replacement, literal_replacement_of, regex_escape,
    replace_matches, replace_or_keep};
use crate::text::{concat3, is_blank, trim, trim_str, views};
use vstd::prelude::*;
use vstd::utf8::encode_utf8;

verus! {

#[derive(Debug, Clone, PartialEq)]
pub struct DictionaryEntry {
    /// What the ASR tends to produce (matched case-insensitively on word boundaries).
    pub spoken: String,
    /// What should be written instead.
    pub written: String,
    pub enabled: bool,
}

impl DictionaryEntry {
    pub fn new(spoken: &str, written: &str) -> (e: Self)
        ensures
            e.spoken@ == spoken@,
            e.written@ == written@,
            e.enabled,
    {
        DictionaryEntry { spoken: spoken.to_owned(), written: written.to_owned(), enabled: true }
    }
}

impl Default for DictionaryEntry {
    fn default() -> (e: Self)
        ensures
            e.spoken@ == Seq::<char>::empty(),
            e.written@ == Seq::<char>::empty(),
            !e.enabled,
    {
        DictionaryEntry { spoken: String::new(), written: String::new(), enabled: false }
    }
}

/// An entry takes part in replacement when it is enabled and its spoken
/// form is not blank.
pub open spec fn eligible(e: DictionaryEntry) -> bool {
    e.enabled && trim(e.spoken@).len() > 0
}

/// The length of the spoken form in UTF-8 bytes (`String::len`).
pub open spec fn spoken_len(e: DictionaryEntry) -> usize {
    encode_utf8(e.spoken@).len() as usize
}

/// Where `e` goes in a list sorted by decreasing spoken length: before the
/// first entry that is strictly shorter, so equally long entries keep their
/// relative order.
pub open spec fn insert_position(sorted: Seq<DictionaryEntry>, e: DictionaryEntry) -> int
    decreases sorted.len(),
{
    if sorted.len() == 0 {
        0
    } else if spoken_len(sorted.last()) >= spoken_len(e) {
        sorted.len() as int
    } else {
        insert_position(sorted.drop_last(), e)
    }
}

/// The eligible entries, longest spoken form first (a stable sort).
pub open spec fn application_order(entries: Seq<DictionaryEntry>) -> Seq<DictionaryEntry>
    decreases entries.len(),
{
    if entries.len() == 0 {
        Seq::empty()
    } else {
        let prev = application_order(entries.drop_last());
        if eligible(entries.last()) {
            prev.insert(insert_position(prev, entries.last()), entries.last())
        } else {
            prev
        }
    }
}

/// The case-insensitive whole-word pattern for an entry's trimmed spoken form.
pub open spec fn entry_pattern(e: DictionaryEntry) -> Seq<char> {
    "(?i)\\b"@ + regex_escape(trim(e.spoken@)) + "\\b"@
}

/// `text` after applying the first `n` entries of `order`: every match of
/// an entry's pattern becomes its written form, taken literally.
pub open spec fn apply_upto(order: Seq<DictionaryEntry>, text: Seq<char>, n: nat) -> Seq<char>
    decreases n,
{
    if n == 0 {
        text
    } else {
        let e = order[n - 1];
        replace_or_keep(
            entry_pattern(e),
            apply_upto(order, text, (n - 1) as nat),
            literal_replacement(e.written@),
        )
    }
}

/// `text` with every eligible entry applied, longest spoken form first.
pub open spec fn apply_spec(entries: Seq<DictionaryEntry>, text: Seq<char>) -> Seq<char> {
    let order = application_order(entries);
    apply_upto(order, text, order.len())
}

/// Sorted by non-increasing spoken length.
pub open spec fn sorted_longest_first(s: Seq<DictionaryEntry>) -> bool {
    forall|i: int, j: int| 0 <= i < j < s.len() ==> spoken_len(#[trigger] s[i]) >= spoken_len(
        #[trigger] s[j],
    )
}

proof fn lemma_insert_position(sorted: Seq<DictionaryEntry>, e: DictionaryEntry)
    requires
        sorted_longest_first(sorted),
    ensures
        0 <= insert_position(sorted, e) <= sorted.len(),
        forall|k: int|
            0 <= k < insert_position(sorted, e) ==> spoken_len(#[trigger] sorted[k]) >= spoken_len(
                e,
            ),
        forall|k: int|
            insert_position(sorted, e) <= k < sorted.len() ==> spoken_len(#[trigger] sorted[k])
                < spoken_len(e),
    decreases sorted.len(),
{
    if sorted.len() > 0 {
        if spoken_len(sorted.last()) >= spoken_len(e) {
            assert forall|k: int| 0 <= k < sorted.len() implies spoken_len(#[trigger] sorted[k])
                >= spoken_len(e) by {
                if k < sorted.len() - 1 {
                    assert(spoken_len(sorted[k]) >= spoken_len(sorted[sorted.len() - 1]));
                }
            }
        } else {
            let d = sorted.drop_last();
            assert(sorted_longest_first(d)) by {
                assert forall|i: int, j: int| 0 <= i < j < d.len() implies spoken_len(#[trigger] d[i])
                    >= spoken_len(#[trigger] d[j]) by {
                    assert(d[i] == sorted[i] && d[j] == sorted[j]);
                }
            }
            lemma_insert_position(d, e);
            let p = insert_position(sorted, e);
            assert forall|k: int| p <= k < sorted.len() implies spoken_len(#[trigger] sorted[k])
                < spoken_len(e) by {
                if k < sorted.len() - 1 {
                    assert(sorted[k] == d[k]);
                }
            }
            assert forall|k: int| 0 <= k < p implies spoken_len(#[trigger] sorted[k]) >= spoken_len(
                e,
            ) by {
                assert(sorted[k] == d[k]);
            }
        }
    }
}

/// Law: dictionary entries are applied longest spoken form first, and only
/// enabled entries with a non-blank spoken form are applied.
pub proof fn lemma_application_order(entries: Seq<DictionaryEntry>)
    ensures
        sorted_longest_first(application_order(entries)),
        forall|k: int|
            0 <= k < application_order(entries).len() ==> #[trigger] eligible(
                application_order(entries)[k],
            ),
        application_order(entries).len() <= entries.len(),
    decreases entries.len(),
{
    if entries.len() > 0 {
        lemma_application_order(entries.drop_last());
        let prev = application_order(entries.drop_last());
        let e = entries.last();
        if eligible(e) {
            lemma_insert_position(prev, e);
            let p = insert_position(prev, e);
            let s = prev.insert(p, e);
            assert forall|i: int, j: int| 0 <= i < j < s.len() implies spoken_len(#[trigger] s[i])
                >= spoken_len(#[trigger] s[j]) by {
                if i < p && j < p {
                    assert(s[i] == prev[i] && s[j] == prev[j]);
                } else if i < p && j == p {
                    assert(s[i] == prev[i]);
                } else if i < p {
                    assert(s[i] == prev[i] && s[j] == prev[j - 1]);
                } else if i == p {
                    assert(s[j] == prev[j - 1]);
                } else {
                    assert(s[i] == prev[i - 1] && s[j] == prev[j - 1]);
                }
            }
            assert forall|k: int| 0 <= k < s.len() implies #[trigger] eligible(s[k]) by {
                if k < p {
                    assert(s[k] == prev[k]);
                } else if k > p {
                    assert(s[k] == prev[k - 1]);
                }
            }
        }
    }
}

/// Law: an entry is matched only as a whole word, in any letter case: the
/// dictionary with one usable entry replaces, by the entry's written form
/// taken literally, the matches of a case-insensitive (`(?i)`) pattern that
/// is a word boundary (`\b`), the trimmed spoken form with every regex meta
/// character escaped, and another word boundary.
pub proof fn lemma_entry_matches_whole_words(e: DictionaryEntry, text: Seq<char>)
    requires
        eligible(e),
    ensures
        apply_spec(seq![e], text) == replace_or_keep(
            "(?i)"@ + "\\b"@ + regex_escape(trim(e.spoken@)) + "\\b"@,
            text,
            literal_replacement(e.written@),
        ),
{
    reveal_strlit("(?i)");
    reveal_strlit("\\b");
    reveal_strlit("(?i)\\b");
    let one = seq![e];
    assert(one.drop_last() == Seq::<DictionaryEntry>::empty());
    assert(one.last() == e);
    let order = application_order(one);
    assert(application_order(Seq::<DictionaryEntry>::empty()) == Seq::<DictionaryEntry>::empty());
    assert(insert_position(Seq::<DictionaryEntry>::empty(), e) == 0);
    assert(order =~= seq![e]);
    assert(order[0] == e);
    assert(apply_upto(order, text, 0) == text);
    assert("(?i)\\b"@ =~= "(?i)"@ + "\\b"@);
    assert(entry_pattern(e) =~= "(?i)"@ + "\\b"@ + regex_escape(trim(e.spoken@)) + "\\b"@);
}

/// Law: when no entry is eligible, applying the dictionary leaves the text
/// unchanged.
pub proof fn lemma_no_eligible_entries_is_identity(entries: Seq<DictionaryEntry>, text: Seq<char>)
    requires
        forall|k: int| 0 <= k < entries.len() ==> !#[trigger] eligible(entries[k]),
    ensures
        apply_spec(entries, text) == text,
{
    lemma_no_eligible_empty_order(entries);
}

proof fn lemma_no_eligible_empty_order(entries: Seq<DictionaryEntry>)
    requires
        forall|k: int| 0 <= k < entries.len() ==> !#[trigger] eligible(entries[k]),
    ensures
        application_order(entries).len() == 0,
    decreases entries.len(),
{
    if entries.len() > 0 {
        let d = entries.drop_last();
        assert forall|k: int| 0 <= k < d.len() implies !#[trigger] eligible(d[k]) by {
            assert(d[k] == entries[k]);
        }
        lemma_no_eligible_empty_order(d);
        assert(!eligible(entries[entries.len() - 1]));
    }
}

/// Indices (into `entries`) of the application order.
spec fn order_of(entries: Seq<DictionaryEntry>, idx: Seq<usize>) -> Seq<DictionaryEntry> {
    idx.map_values(|i: usize| entries[i as int])
}

/// Apply all enabled entries to `text`. Longer spoken forms are applied first
/// so "open source wisper" wins over a shorter "wisper" entry covering the
/// same span.
pub fn apply(entries: &[DictionaryEntry], text: &str) -> (res: String)
    ensures
        res@ == apply_spec(entries@, text@),
{
    // Stable insertion sort of the eligible entries by decreasing spoken length.
    let mut order: Vec<usize> = Vec::new();
    let mut i: usize = 0;
    while i < entries.len()
        invariant
            i <= entries@.len(),
            forall|k: int| 0 <= k < order@.len() ==> #[trigger] order@[k] < entries@.len(),
            order_of(entries@, order@) == application_order(entries@.take(i as int)),
        decreases entries.len() - i,
    {
        let e = &entries[i];
        proof {
            assert(entries@.take(i + 1).drop_last() == entries@.take(i as int));
            assert(entries@.take(i + 1).last() == *e);
        }
        if e.enabled && !is_blank(e.spoken.as_str()) {
            let len_e = e.spoken.as_str().len();
            let ghost prev = order_of(entries@, order@);
            let mut j: usize = order.len();
            assert(prev.take(order.len() as int) == prev);
            while j > 0 && entries[order[j - 1]].spoken.as_str().len() < len_e
                invariant
                    j <= order@.len(),
                    forall|k: int| 0 <= k < order@.len() ==> #[trigger] order@[k] < entries@.len(),
                    prev == order_of(entries@, order@),
                    len_e == spoken_len(*e),
                    insert_position(prev, *e) == insert_position(prev.take(j as int), *e),
                decreases j,
            {
                proof {
                    let t = prev.take(j as int);
                    assert(t.last() == entries@[order@[j - 1] as int]);
                    assert(t.drop_last() == prev.take(j - 1));
                }
                j -= 1;
            }
            proof {
                let t = prev.take(j as int);
                if j > 0 {
                    assert(t.last() == entries@[order@[j - 1] as int]);
                }
                assert(insert_position(t, *e) == j);
            }
            order.insert(j, i);
            proof {
                assert(order_of(entries@, order@) == prev.insert(j as int, *e));
            }
        }
        i += 1;
    }
    assert(entries@.take(entries.len() as int) == entries@);
    let ghost full = application_order(entries@);
    let mut out = text.to_owned();
    let mut n: usize = 0;
    while n < order.len()
        invariant
            n <= order@.len(),
            forall|k: int| 0 <= k < order@.len() ==> #[trigger] order@[k] < entries@.len(),
            order_of(entries@, order@) == full,
            out@ == apply_upto(full, text@, n as nat),
        decreases order.len() - n,
    {
        let e = &entries[order[n]];
        assert(*e == full[n as int]);
        let spoken = trim_str(e.spoken.as_str());
        let escaped = escape(spoken.as_str());
        let pattern = concat3("(?i)\\b", escaped.as_str(), "\\b");
        let rep = literal_replacement_of(e.written.as_str());
        out = replace_matches(pattern.as_str(), out.as_str(), rep.as_str());
        n += 1;
    }
    out
}

/// The written forms of the enabled entries, in order.
pub open spec fn enabled_written(entries: Seq<DictionaryEntry>) -> Seq<Seq<char>>
    decreases entries.len(),
{
    if entries.len() == 0 {
        Seq::empty()
    } else if entries.last().enabled {
        enabled_written(entries.drop_last()).push(entries.last().written@)
    } else {
        enabled_written(entries.drop_last())
    }
}

/// At most `max` of the enabled entries' written forms, in order.
pub open spec fn prompt_terms(entries: Seq<DictionaryEntry>, max: usize) -> Seq<Seq<char>> {
    let all = enabled_written(entries);
    if all.len() <= max {
        all
    } else {
        all.take(max as int)
    }
}

/// The dictionary terms worth hinting to the cleanup LLM (so it also respects them).
pub fn terms_for_prompt(entries: &[DictionaryEntry], max: usize) -> (res: Vec<String>)
    ensures
        views(res@) == prompt_terms(entries@, max),
{
    let mut out: Vec<String> = Vec::new();
    let mut i: usize = 0;
    while i < entries.len()
        invariant
            i <= entries@.len(),
            out@.len() <= max,
            views(out@) == prompt_terms(entries@.take(i as int), max),
        decreases entries.len() - i,
    {
        proof {
            assert(entries@.take(i + 1).drop_last() == entries@.take(i as int));
            assert(entries@.take(i + 1).last() == entries@[i as int]);
        }
        if entries[i].enabled && out.len() < max {
            let ghost before = out@;
            let w = entries[i].written.clone();
            out.push(w);
            assert(views(out@) == views(before).push(w@));
        }
        i += 1;
    }
    assert(entries@.take(entries.len() as int) == entries@);
    out
}

} // verus!
