//! Speech-to-text around the whisper model: the prompt that biases decoding
//! toward dictionary terms, the decoding parameters, and how the decoded
//! segments become one transcript. Running the model is the caller's job.

use crate::text::{chars_of, is_trimmed, lemma_trim_is_trimmed, concat3, is_white_space, is_white_space_char, join, str_eq, string_of,
    trim, trim_chars, views, join_strings, extend_chars};
use vstd::prelude::*;

verus! {

/// The initial prompt built from dictionary terms: whisper biases toward
/// vocabulary it has "already seen" in the prompt.
pub open spec fn dictionary_prompt_spec(terms: Seq<Seq<char>>) -> Seq<char> {
    if terms.len() == 0 {
        Seq::empty()
    } else {
        "Glossary: "@ + join(terms, ", "@) + "."@
    }
}

pub fn dictionary_prompt(terms: &[String]) -> (res: String)
    ensures
        res@ == dictionary_prompt_spec(views(terms@)),
{
    if terms.len() == 0 {
        return String::new();
    }
    let joined = join_strings(terms, ", ");
    concat3("Glossary: ", joined.as_str(), ".")
}

/// One step of white-space collapsing: the text so far and whether the
/// previous character was white space.
pub open spec fn collapse_step(st: (Seq<char>, bool), ch: char) -> (Seq<char>, bool) {
    if is_white_space(ch) {
        if !st.1 {
            (st.0.push(' '), true)
        } else {
            st
        }
    } else {
        (st.0.push(ch), false)
    }
}

pub open spec fn collapse_state(s: Seq<char>) -> (Seq<char>, bool)
    decreases s.len(),
{
    if s.len() == 0 {
        (Seq::empty(), false)
    } else {
        collapse_step(collapse_state(s.drop_last()), s.last())
    }
}

/// Every run of white space replaced by one space.
pub open spec fn collapse_whitespace_spec(s: Seq<char>) -> Seq<char> {
    collapse_state(s).0
}

pub fn collapse_whitespace(s: &str) -> (res: String)
    ensures
        res@ == collapse_whitespace_spec(s@),
{
    let v = chars_of(s);
    let mut out: Vec<char> = Vec::new();
    let mut last_space = false;
    let mut i: usize = 0;
    while i < v.len()
        invariant
            i <= v.len(),
            (out@, last_space) == collapse_state(v@.take(i as int)),
        decreases v.len() - i,
    {
        let ch = v[i];
        proof {
            assert(v@.take(i + 1).drop_last() == v@.take(i as int));
            assert(v@.take(i + 1).last() == ch);
        }
        if is_white_space_char(ch) {
            if !last_space {
                out.push(' ');
            }
            last_space = true;
        } else {
            out.push(ch);
            last_space = false;
        }
        i += 1;
    }
    assert(v@.take(v.len() as int) == v@);
    string_of(&out)
}

/// Only plain spaces as white space, never two in a row.
pub open spec fn single_spaced(t: Seq<char>) -> bool {
    &&& forall|k: int| 0 <= k < t.len() && is_white_space(#[trigger] t[k]) ==> t[k] == ' '
    &&& forall|i: int, j: int|
        0 <= i && j == i + 1 && j < t.len() ==> !(#[trigger] t[i] == ' ' && #[trigger] t[j] == ' ')
}

proof fn lemma_collapse_state(s: Seq<char>)
    ensures
        single_spaced(collapse_state(s).0),
        collapse_state(s).1 <==> (collapse_state(s).0.len() > 0 && collapse_state(s).0.last()
            == ' '),
        s.len() > 0 ==> collapse_state(s).0.len() > 0 && (collapse_state(s).0.last() == ' '
            <==> is_white_space(s.last())) && (collapse_state(s).0[0] == ' ' <==> is_white_space(
            s[0],
        )),
    decreases s.len(),
{
    assert(is_white_space(' ')) by {
        assert(' ' as u32 == 0x20);
    }
    if s.len() > 0 {
        let d = s.drop_last();
        lemma_collapse_state(d);
        let st = collapse_state(d);
        let ch = s.last();
        let r = collapse_state(s).0;
        if d.len() > 0 {
            assert(d[0] == s[0]);
        }
        if !(is_white_space(ch) && st.1) {
            let c = if is_white_space(ch) {
                ' '
            } else {
                ch
            };
            assert(r == st.0.push(c));
            assert forall|k: int| 0 <= k < r.len() && is_white_space(#[trigger] r[k]) implies r[k]
                == ' ' by {
                if k < st.0.len() {
                    assert(r[k] == st.0[k]);
                }
            }
            assert forall|i: int, j: int| 0 <= i && j == i + 1 && j < r.len() implies !(
            #[trigger] r[i] == ' ' && #[trigger] r[j] == ' ') by {
                if j < st.0.len() {
                    assert(r[i] == st.0[i] && r[j] == st.0[j]);
                } else {
                    assert(r[i] == st.0.last());
                }
            }
            if st.0.len() > 0 {
                assert(r[0] == st.0[0]);
            }
        }
    }
}

/// All segments concatenated.
pub open spec fn concat_all(segments: Seq<Seq<char>>) -> Seq<char>
    decreases segments.len(),
{
    if segments.len() == 0 {
        Seq::empty()
    } else {
        concat_all(segments.drop_last()) + segments.last()
    }
}

/// Law: concatenation is the plain joining of the segments, in order and
/// with none left out: one segment gives itself, and the concatenation of
/// two runs of segments is the first run's followed by the second's.
pub proof fn lemma_concat_all_joins(a: Seq<Seq<char>>, b: Seq<Seq<char>>, x: Seq<char>)
    ensures
        concat_all(Seq::empty()) == Seq::<char>::empty(),
        concat_all(seq![x]) == x,
        concat_all(a + b) == concat_all(a) + concat_all(b),
    decreases b.len(),
{
    assert(seq![x].drop_last() == Seq::<Seq<char>>::empty());
    assert(seq![x].last() == x);
    assert(concat_all(Seq::<Seq<char>>::empty()) == Seq::<char>::empty());
    assert(concat_all(seq![x]) == concat_all(seq![x].drop_last()) + x);
    assert(Seq::<char>::empty() + x == x);
    if b.len() == 0 {
        assert(a + b == a);
        assert(concat_all(a) + Seq::<char>::empty() == concat_all(a));
    } else {
        lemma_concat_all_joins(a, b.drop_last(), x);
        assert((a + b).drop_last() == a + b.drop_last());
        assert((a + b).last() == b.last());
        assert(concat_all(a) + concat_all(b.drop_last()) + b.last() == concat_all(a) + (concat_all(
            b.drop_last(),
        ) + b.last()));
    }
}

/// Law: every segment appears whole in the concatenation, right after the
/// segments before it.
pub proof fn lemma_concat_all_keeps_segments(segs: Seq<Seq<char>>, k: int)
    requires
        0 <= k < segs.len(),
    ensures
        concat_all(segs) == concat_all(segs.take(k)) + segs[k] + concat_all(segs.skip(k + 1)),
{
    let x = segs[k];
    assert(segs == segs.take(k) + seq![x] + segs.skip(k + 1));
    lemma_concat_all_joins(segs.take(k) + seq![x], segs.skip(k + 1), x);
    lemma_concat_all_joins(segs.take(k), seq![x], x);
}

/// The transcript made of the decoded segments (those that could be read):
/// concatenated, trimmed, white-space runs collapsed.
pub fn assemble_transcript(segments: &[String]) -> (res: String)
    ensures
        res@ == collapse_whitespace_spec(trim(concat_all(views(segments@)))),
{
    let mut all: Vec<char> = Vec::new();
    let ghost segs = views(segments@);
    let mut i: usize = 0;
    while i < segments.len()
        invariant
            i <= segments@.len(),
            segs == views(segments@),
            all@ == concat_all(segs.take(i as int)),
        decreases segments.len() - i,
    {
        proof {
            assert(segs.take(i + 1).drop_last() == segs.take(i as int));
            assert(segs.take(i + 1).last() == segments@[i as int]@);
        }
        extend_chars(&mut all, segments[i].as_str());
        i += 1;
    }
    assert(segs.take(segments.len() as int) == segs);
    let t = trim_chars(&all);
    let ts = string_of(&t);
    collapse_whitespace(ts.as_str())
}

/// Whisper decode threads: the configured number, or (for 0) the available
/// parallelism (4 when unknown) capped at 8.
pub open spec fn decode_threads_spec(requested: usize, available: Option<usize>) -> i32 {
    if requested == 0 {
        let a = match available {
            Some(n) => n,
            None => 4,
        };
        (if a < 8 {
            a
        } else {
            8
        }) as i32
    } else {
        requested as i32
    }
}

pub fn decode_threads(requested: usize, available: Option<usize>) -> (n: i32)
    ensures
        n == decode_threads_spec(requested, available),
{
    if requested == 0 {
        let a = match available {
            Some(n) => n,
            None => 4,
        };
        let capped = if a < 8 {
            a
        } else {
            8
        };
        capped as i32
    } else {
        #[verifier::truncate]
        (requested as i32)
    }
}

/// The language passed to whisper: none (auto-detect) for "" and "auto",
/// otherwise the configured code.
pub fn language_hint(language: &str) -> (res: Option<&str>)
    ensures
        (language@.len() == 0 || language@ == "auto"@) ==> res is None,
        !(language@.len() == 0 || language@ == "auto"@) ==> res == Some(language),
{
    if language.is_empty() || str_eq(language, "auto") {
        None
    } else {
        Some(language)
    }
}

/// Law: an assembled transcript has plain single spaces only, and none at
/// either end.
pub proof fn lemma_transcript_is_single_spaced(segments: Seq<Seq<char>>)
    ensures
        single_spaced(collapse_whitespace_spec(trim(concat_all(segments)))),
        collapse_whitespace_spec(trim(concat_all(segments))).len() > 0 ==> collapse_whitespace_spec(
            trim(concat_all(segments)),
        )[0] != ' ' && collapse_whitespace_spec(trim(concat_all(segments))).last() != ' ',
{
    let t = trim(concat_all(segments));
    lemma_trim_is_trimmed(concat_all(segments));
    assert(is_trimmed(t));
    lemma_collapse_state(t);
}

} // verus!
