//! Local dictation history, kept as one JSON line per entry, oldest first.
//!
//! History never leaves the machine. Each entry keeps both the raw ASR
//! output and the final injected text so users can audit what the cleanup
//! stage did. Reading and writing the file is the caller's job; this module
//! decides which entries a read returns and what a compaction writes.

use vstd::prelude::*;

verus! {

#[derive(Debug, Clone, PartialEq)]
pub struct HistoryEntry {
    /// When the dictation happened: seconds since the Unix epoch (UTC) ...
    pub timestamp_secs: i64,
    /// ... and the nanoseconds within that second.
    pub timestamp_nanos: u32,
    /// Raw transcript straight from the ASR model.
    pub raw: String,
    /// Final text after dictionary + formatting + LLM cleanup.
    pub final_text: String,
    /// App the text was injected into, if known.
    pub app: String,
    pub duration_ms: u64,
    /// Whether the LLM cleanup stage ran (vs deterministic formatting only).
    pub cleaned: bool,
}

/// The readable entries of a history file, newest first. Each line is
/// `None` when it could not be parsed (corrupt lines are skipped).
pub open spec fn newest_first(lines: Seq<Option<HistoryEntry>>) -> Seq<HistoryEntry>
    decreases lines.len(),
{
    if lines.len() == 0 {
        Seq::empty()
    } else {
        match lines.last() {
            Some(e) => seq![e] + newest_first(lines.drop_last()),
            None => newest_first(lines.drop_last()),
        }
    }
}

/// At most the first `limit` elements of `s`.
pub open spec fn at_most<A>(s: Seq<A>, limit: int) -> Seq<A> {
    if s.len() <= limit {
        s
    } else {
        s.take(limit)
    }
}

/// What loading the history returns: up to `limit` most-recent readable
/// entries, newest first.
pub open spec fn recent_spec(lines: Seq<Option<HistoryEntry>>, limit: usize) -> Seq<HistoryEntry> {
    at_most(newest_first(lines), limit as int)
}

/// Up to `limit` most-recent entries (newest first) of a history file whose
/// lines, oldest first, parsed as `lines`.
pub fn load_recent(lines: Vec<Option<HistoryEntry>>, limit: usize) -> (res: Vec<HistoryEntry>)
    ensures
        res@ == recent_spec(lines@, limit),
{
    let ghost all = lines@;
    let mut rest = lines;
    let mut out: Vec<HistoryEntry> = Vec::new();
    while rest.len() > 0
        invariant
            out@.len() <= limit,
            at_most(out@ + newest_first(rest@), limit as int) == recent_spec(all, limit),
        decreases rest.len(),
    {
        let ghost before = rest@;
        let line = rest.pop().unwrap();
        proof {
            assert(rest@ == before.drop_last());
            assert(line == before.last());
        }
        match line {
            Some(e) => {
                if out.len() < limit {
                    let ghost o = out@;
                    out.push(e);
                    assert(out@ + newest_first(rest@) == o + newest_first(before));
                } else {
                    assert(at_most(out@ + newest_first(before), limit as int) == out@);
                    assert(at_most(out@ + newest_first(rest@), limit as int) == out@);
                }
            },
            None => {},
        }
    }
    assert(out@ + newest_first(rest@) == out@);
    out
}

/// The lines a compaction writes back: the kept entries, oldest first.
pub fn compaction_lines(recent: Vec<HistoryEntry>) -> (res: Vec<HistoryEntry>)
    ensures
        res@ == recent@.reverse(),
{
    let ghost all = recent@;
    let mut rest = recent;
    let mut out: Vec<HistoryEntry> = Vec::new();
    while rest.len() > 0
        invariant
            out@ + rest@.reverse() == all.reverse(),
        decreases rest.len(),
    {
        let ghost before = rest@;
        let e = rest.pop().unwrap();
        proof {
            assert(rest@ == before.drop_last());
            assert(before.reverse() == seq![e] + rest@.reverse());
        }
        out.push(e);
    }
    assert(out@ + rest@.reverse() == out@);
    out
}

/// History lines that all parsed.
pub open spec fn as_lines(entries: Seq<HistoryEntry>) -> Seq<Option<HistoryEntry>> {
    entries.map_values(|e: HistoryEntry| Some(e))
}

proof fn lemma_newest_first_of_written(x: Seq<HistoryEntry>)
    ensures
        newest_first(as_lines(x.reverse())) == x,
    decreases x.len(),
{
    if x.len() > 0 {
        let l = as_lines(x.reverse());
        assert(l.last() == Some(x[0]));
        assert(l.drop_last() == as_lines(x.drop_first().reverse()));
        lemma_newest_first_of_written(x.drop_first());
        assert(seq![x[0]] + x.drop_first() == x);
    }
}

/// Law: after compacting to the newest `keep` entries, loading `limit`
/// entries gives what loading `min(keep, limit)` entries gave before.
pub proof fn lemma_compaction_keeps_newest(lines: Seq<Option<HistoryEntry>>, keep: usize, limit: usize)
    ensures
        recent_spec(as_lines(recent_spec(lines, keep).reverse()), limit) == recent_spec(
            lines,
            if keep < limit {
                keep
            } else {
                limit
            },
        ),
{
    let kept = recent_spec(lines, keep);
    lemma_newest_first_of_written(kept);
    let y = newest_first(lines);
    if y.len() > keep && keep < limit {
        assert(at_most(y.take(keep as int), limit as int) == y.take(keep as int));
    } else if y.len() > keep {
        assert(at_most(y.take(keep as int), limit as int) == y.take(limit as int));
    }
}

/// Law: loading returns at most `limit` entries, each of them a readable
/// line of the file.
pub proof fn lemma_recent_bounded(lines: Seq<Option<HistoryEntry>>, limit: usize)
    ensures
        recent_spec(lines, limit).len() <= limit,
        forall|i: int|
            0 <= i < recent_spec(lines, limit).len() ==> lines.contains(
                Some(#[trigger] recent_spec(lines, limit)[i]),
            ),
{
    lemma_newest_first_from_lines(lines);
}

proof fn lemma_newest_first_from_lines(lines: Seq<Option<HistoryEntry>>)
    ensures
        forall|i: int|
            0 <= i < newest_first(lines).len() ==> lines.contains(
                Some(#[trigger] newest_first(lines)[i]),
            ),
    decreases lines.len(),
{
    if lines.len() > 0 {
        let d = lines.drop_last();
        lemma_newest_first_from_lines(d);
        assert forall|i: int| 0 <= i < newest_first(lines).len() implies lines.contains(
            Some(#[trigger] newest_first(lines)[i]),
        ) by {
            match lines.last() {
                Some(e) => {
                    if i == 0 {
                        assert(lines[lines.len() - 1] == Some(e));
                    } else {
                        let x = newest_first(d)[i - 1];
                        assert(newest_first(lines)[i] == x);
                        assert(d.contains(Some(x)));
                        let k = choose|k: int| 0 <= k < d.len() && d[k] == Some(x);
                        assert(lines[k] == Some(x));
                    }
                },
                None => {
                    let x = newest_first(d)[i];
                    assert(d.contains(Some(x)));
                    let k = choose|k: int| 0 <= k < d.len() && d[k] == Some(x);
                    assert(lines[k] == Some(x));
                },
            }
        }
    }
}

} // verus!
