//! Deterministic (non-LLM) transcript post-processing.
//!
//! The always-available fallback that makes raw Whisper output feel polished
//! even when the cleanup LLM is disabled or unreachable: filler removal,
//! optional spoken punctuation commands, whitespace/capitalization tidying.

use crate::pattern::{escape, regex_escape, replace_matches, replace_or_keep};
use crate::settings::FormatSettings;
use crate::text::{chars_of, concat3, extend_vec, is_white_space, is_white_space_char, starts_with,
    starts_with_exec, str_eq, string_of, trim, trim_str};
use crate::unicode::{alphabetic, is_alphabetic, to_uppercase, uppercase};
use vstd::prelude::*;

verus! {

// ---------------------------------------------------------------------------
// Fillers
// ---------------------------------------------------------------------------

/// Whisper renders fillers as um/uh/uhm/erm/er/ah/hmm, often followed by a comma:
/// the pattern removes them together with that punctuation and the space after.
pub open spec fn filler_pattern() -> Seq<char> {
    "(?i)\\b(um+|uh+|uhm|erm|er|ah|hmm+)\\b[,.]?\\s*"@
}

/// `text` with every filler match removed.
pub open spec fn remove_fillers_spec(text: Seq<char>) -> Seq<char> {
    replace_or_keep(filler_pattern(), text, Seq::empty())
}

pub fn remove_fillers(text: &str) -> (res: String)
    ensures
        res@ == remove_fillers_spec(text@),
{
    let r = replace_matches("(?i)\\b(um+|uh+|uhm|erm|er|ah|hmm+)\\b[,.]?\\s*", text, "");
    assert(""@ == Seq::<char>::empty()) by {
        reveal_strlit("");
    }
    r
}

// ---------------------------------------------------------------------------
// Spoken punctuation
// ---------------------------------------------------------------------------

/// Number of spoken punctuation commands.
pub open spec fn spoken_count() -> nat {
    16
}

/// The spoken punctuation commands as (spoken words, symbol), longest-first
/// so "question mark" beats "question".
pub open spec fn spoken_entry(i: int) -> (Seq<char>, Seq<char>) {
    if i == 0 {
        ("exclamation mark"@, "!"@)
    } else if i == 1 {
        ("exclamation point"@, "!"@)
    } else if i == 2 {
        ("question mark"@, "?"@)
    } else if i == 3 {
        ("new paragraph"@, "\n\n"@)
    } else if i == 4 {
        ("new line"@, "\n"@)
    } else if i == 5 {
        ("open quote"@, "\u{201C}"@)
    } else if i == 6 {
        ("close quote"@, "\u{201D}"@)
    } else if i == 7 {
        ("semicolon"@, ";"@)
    } else if i == 8 {
        ("colon"@, ":"@)
    } else if i == 9 {
        ("comma"@, ","@)
    } else if i == 10 {
        ("period"@, "."@)
    } else if i == 11 {
        ("full stop"@, "."@)
    } else if i == 12 {
        ("dash"@, " \u{2014} "@)
    } else if i == 13 {
        ("hyphen"@, "-"@)
    } else if i == 14 {
        ("open paren"@, "("@)
    } else {
        ("close paren"@, ")"@)
    }
}

fn spoken_entry_exec(i: usize) -> (res: (&'static str, &'static str))
    ensures
        res.0@ == spoken_entry(i as int).0,
        res.1@ == spoken_entry(i as int).1,
{
    if i == 0 {
        ("exclamation mark", "!")
    } else if i == 1 {
        ("exclamation point", "!")
    } else if i == 2 {
        ("question mark", "?")
    } else if i == 3 {
        ("new paragraph", "\n\n")
    } else if i == 4 {
        ("new line", "\n")
    } else if i == 5 {
        ("open quote", "\u{201C}")
    } else if i == 6 {
        ("close quote", "\u{201D}")
    } else if i == 7 {
        ("semicolon", ";")
    } else if i == 8 {
        ("colon", ":")
    } else if i == 9 {
        ("comma", ",")
    } else if i == 10 {
        ("period", ".")
    } else if i == 11 {
        ("full stop", ".")
    } else if i == 12 {
        ("dash", " \u{2014} ")
    } else if i == 13 {
        ("hyphen", "-")
    } else if i == 14 {
        ("open paren", "(")
    } else {
        ("close paren", ")")
    }
}

/// The pattern for one spoken command: optional preceding `,`/`.`, any
/// white space, the words on word boundaries, optional trailing `,`/`.`;
/// case-insensitive.
pub open spec fn spoken_pattern(spoken: Seq<char>) -> Seq<char> {
    "(?i)[,.]?\\s*\\b"@ + regex_escape(spoken) + "\\b[,.]?"@
}

/// What a spoken command is replaced by: line breaks and the spaced dash
/// stand alone, an opening paren or quote gets a space in front, every other
/// symbol attaches to the preceding word.
pub open spec fn spoken_replacement(symbol: Seq<char>) -> Seq<char> {
    if starts_with(symbol, "\n"@) || starts_with(symbol, " \u{2014}"@) {
        symbol
    } else if symbol == "("@ || symbol == "\u{201C}"@ {
        " "@ + symbol
    } else {
        symbol
    }
}

/// `text` after applying the first `n` spoken commands in table order.
pub open spec fn spoken_punctuation_upto(text: Seq<char>, n: nat) -> Seq<char>
    decreases n,
{
    if n == 0 {
        text
    } else {
        let prev = spoken_punctuation_upto(text, (n - 1) as nat);
        let (spoken, symbol) = spoken_entry(n - 1);
        replace_or_keep(spoken_pattern(spoken), prev, spoken_replacement(symbol))
    }
}

/// `text` with every spoken punctuation command replaced by its symbol.
pub open spec fn spoken_punctuation_spec(text: Seq<char>) -> Seq<char> {
    spoken_punctuation_upto(text, spoken_count())
}

fn spoken_replacement_exec(symbol: &str) -> (res: String)
    ensures
        res@ == spoken_replacement(symbol@),
{
    let sv = chars_of(symbol);
    let nl = chars_of("\n");
    let dash = chars_of(" \u{2014}");
    if starts_with_exec(&sv, &nl) || starts_with_exec(&sv, &dash) {
        symbol.to_owned()
    } else if str_eq(symbol, "(") || str_eq(symbol, "\u{201C}") {
        proof {
            reveal_strlit("");
        }
        assert(" "@ + symbol@ + ""@ == " "@ + symbol@);
        concat3(" ", symbol, "")
    } else {
        symbol.to_owned()
    }
}

fn apply_spoken_punctuation(text: &str) -> (res: String)
    ensures
        res@ == spoken_punctuation_spec(text@),
{
    let mut out = text.to_owned();
    let mut i: usize = 0;
    while i < 16
        invariant
            i <= 16,
            out@ == spoken_punctuation_upto(text@, i as nat),
        decreases 16 - i,
    {
        let (spoken, symbol) = spoken_entry_exec(i);
        let escaped = escape(spoken);
        let pattern = concat3("(?i)[,.]?\\s*\\b", escaped.as_str(), "\\b[,.]?");
        let replacement = spoken_replacement_exec(symbol);
        proof {
            assert(""@ == Seq::<char>::empty()) by {
                reveal_strlit("");
            }
        }
        out = replace_matches(pattern.as_str(), out.as_str(), replacement.as_str());
        i += 1;
    }
    out
}

// ---------------------------------------------------------------------------
// Whitespace tidying
// ---------------------------------------------------------------------------

/// `s` without trailing space characters (U+0020).
pub open spec fn drop_trailing_spaces(s: Seq<char>) -> Seq<char>
    decreases s.len(),
{
    if s.len() > 0 && s.last() == ' ' {
        drop_trailing_spaces(s.drop_last())
    } else {
        s
    }
}

/// One step of the line tidier. The state is the text produced so far and
/// whether the last character kept on the current line was a space (true at
/// the start of a line, so leading blanks vanish). Runs of spaces and tabs
/// become one space, a line break first drops the line's trailing spaces.
pub open spec fn tidy_step(st: (Seq<char>, bool), ch: char) -> (Seq<char>, bool) {
    if ch == '\n' {
        (drop_trailing_spaces(st.0).push('\n'), true)
    } else if ch == ' ' || ch == '\t' {
        if !st.1 {
            (st.0.push(' '), true)
        } else {
            st
        }
    } else {
        (st.0.push(ch), false)
    }
}

pub open spec fn tidy_state(s: Seq<char>) -> (Seq<char>, bool)
    decreases s.len(),
{
    if s.len() == 0 {
        (Seq::empty(), true)
    } else {
        tidy_step(tidy_state(s.drop_last()), s.last())
    }
}

/// Every line with its runs of spaces/tabs collapsed to one space and its
/// leading and trailing spaces removed; line breaks are kept.
pub open spec fn collapse_blanks(s: Seq<char>) -> Seq<char> {
    drop_trailing_spaces(tidy_state(s).0)
}

/// How many times `c` occurs in `s`.
pub open spec fn count_char(s: Seq<char>, c: char) -> nat
    decreases s.len(),
{
    if s.len() == 0 {
        0
    } else {
        count_char(s.drop_last(), c) + if s.last() == c {
            1nat
        } else {
            0nat
        }
    }
}

/// No tabs, no two spaces in a row, no space at the start of the text or
/// next to a line break.
pub open spec fn well_spaced(t: Seq<char>) -> bool {
    &&& forall|k: int| 0 <= k < t.len() ==> #[trigger] t[k] != '\t'
    &&& forall|i: int, j: int|
        0 <= i && j == i + 1 && j < t.len() ==> (#[trigger] t[i] == ' ' ==> #[trigger] t[j] != ' '
            && t[j] != '\n') && (t[i] == '\n' ==> t[j] != ' ')
    &&& t.len() > 0 ==> t[0] != ' '
}

/// What the line tidier keeps true of its state: the text is well spaced,
/// and the pending-space flag is set exactly at the start of a line or
/// after a space.
pub open spec fn tidy_inv(st: (Seq<char>, bool)) -> bool {
    &&& well_spaced(st.0)
    &&& st.1 <==> (st.0.len() == 0 || st.0.last() == ' ' || st.0.last() == '\n')
}

proof fn lemma_prefix_well_spaced(t: Seq<char>, n: int)
    requires
        well_spaced(t),
        0 <= n <= t.len(),
    ensures
        well_spaced(t.take(n)),
{
    let r = t.take(n);
    assert forall|k: int| 0 <= k < r.len() implies #[trigger] r[k] != '\t' by {
        assert(r[k] == t[k]);
    }
    assert forall|i: int, j: int| 0 <= i && j == i + 1 && j < r.len() implies (#[trigger] r[i]
        == ' ' ==> #[trigger] r[j] != ' ' && r[j] != '\n') && (r[i] == '\n' ==> r[j] != ' ') by {
        assert(r[i] == t[i] && r[j] == t[j]);
    }
}

proof fn lemma_drop_trailing_spaces(s: Seq<char>)
    ensures
        drop_trailing_spaces(s).len() <= s.len(),
        drop_trailing_spaces(s) == s.take(drop_trailing_spaces(s).len() as int),
        drop_trailing_spaces(s).len() > 0 ==> drop_trailing_spaces(s).last() != ' ',
        count_char(drop_trailing_spaces(s), '\n') == count_char(s, '\n'),
    decreases s.len(),
{
    if s.len() > 0 && s.last() == ' ' {
        lemma_drop_trailing_spaces(s.drop_last());
        let r = drop_trailing_spaces(s.drop_last());
        assert(s.drop_last().take(r.len() as int) == s.take(r.len() as int));
    } else {
        assert(s.take(s.len() as int) == s);
    }
}

proof fn lemma_push_well_spaced(t: Seq<char>, c: char)
    requires
        well_spaced(t),
        c != '\t',
        t.len() == 0 ==> c != ' ',
        t.len() > 0 && t.last() == ' ' ==> c != ' ' && c != '\n',
        t.len() > 0 && t.last() == '\n' ==> c != ' ',
    ensures
        well_spaced(t.push(c)),
{
    let r = t.push(c);
    assert forall|k: int| 0 <= k < r.len() implies #[trigger] r[k] != '\t' by {
        if k < t.len() {
            assert(r[k] == t[k]);
        }
    }
    assert forall|i: int, j: int| 0 <= i && j == i + 1 && j < r.len() implies (#[trigger] r[i]
        == ' ' ==> #[trigger] r[j] != ' ' && r[j] != '\n') && (r[i] == '\n' ==> r[j] != ' ') by {
        if j < t.len() {
            assert(r[i] == t[i] && r[j] == t[j]);
        } else {
            assert(r[i] == t.last() && r[j] == c);
        }
    }
    if t.len() > 0 {
        assert(r[0] == t[0]);
    }
}

proof fn lemma_tidy_state(s: Seq<char>)
    ensures
        tidy_inv(tidy_state(s)),
        count_char(tidy_state(s).0, '\n') == count_char(s, '\n'),
    decreases s.len(),
{
    if s.len() > 0 {
        lemma_tidy_state(s.drop_last());
        let st = tidy_state(s.drop_last());
        let ch = s.last();
        if ch == '\n' {
            lemma_drop_trailing_spaces(st.0);
            let d = drop_trailing_spaces(st.0);
            lemma_prefix_well_spaced(st.0, d.len() as int);
            lemma_push_well_spaced(d, '\n');
            assert(d.push('\n').drop_last() == d);
        } else if ch == ' ' || ch == '\t' {
            if !st.1 {
                lemma_push_well_spaced(st.0, ' ');
                assert(st.0.push(' ').drop_last() == st.0);
            }
        } else {
            lemma_push_well_spaced(st.0, ch);
            assert(st.0.push(ch).drop_last() == st.0);
        }
    }
}

/// Law: collapsing blanks leaves no tab, no run of spaces, no space at the
/// start or end of the text or next to a line break, and keeps every line
/// break.
pub proof fn lemma_collapse_blanks(s: Seq<char>)
    ensures
        well_spaced(collapse_blanks(s)),
        collapse_blanks(s).len() > 0 ==> collapse_blanks(s).last() != ' ',
        count_char(collapse_blanks(s), '\n') == count_char(s, '\n'),
{
    lemma_tidy_state(s);
    let t = tidy_state(s).0;
    lemma_drop_trailing_spaces(t);
    lemma_prefix_well_spaced(t, drop_trailing_spaces(t).len() as int);
}

/// White space (any, line breaks included) in front of closing punctuation.
pub open spec fn space_before_punct_pattern() -> Seq<char> {
    "\\s+([,.!?;:])"@
}

pub open spec fn tidy_whitespace_spec(s: Seq<char>) -> Seq<char> {
    replace_or_keep(space_before_punct_pattern(), collapse_blanks(s), "$1"@)
}

fn pop_trailing_spaces(out: &mut Vec<char>)
    ensures
        final(out)@ == drop_trailing_spaces(old(out)@),
{
    while out.len() > 0 && out[out.len() - 1] == ' '
        invariant
            drop_trailing_spaces(old(out)@) == drop_trailing_spaces(out@),
        decreases out.len(),
    {
        let ghost before = out@;
        out.pop();
        assert(out@ == before.drop_last());
    }
}

fn tidy_whitespace(text: &str) -> (res: String)
    ensures
        res@ == tidy_whitespace_spec(text@),
{
    let v = chars_of(text);
    let mut out: Vec<char> = Vec::new();
    let mut last_space = true;
    let mut i: usize = 0;
    while i < v.len()
        invariant
            i <= v.len(),
            (out@, last_space) == tidy_state(v@.take(i as int)),
        decreases v.len() - i,
    {
        let ch = v[i];
        proof {
            assert(v@.take(i + 1).drop_last() == v@.take(i as int));
            assert(v@.take(i + 1).last() == ch);
        }
        if ch == '\n' {
            pop_trailing_spaces(&mut out);
            out.push('\n');
            last_space = true;
        } else if ch == ' ' || ch == '\t' {
            if !last_space {
                out.push(' ');
                last_space = true;
            }
        } else {
            out.push(ch);
            last_space = false;
        }
        i += 1;
    }
    assert(v@.take(v.len() as int) == v@);
    pop_trailing_spaces(&mut out);
    let collapsed = string_of(&out);
    replace_matches("\\s+([,.!?;:])", collapsed.as_str(), "$1")
}

// ---------------------------------------------------------------------------
// Sentence capitalization
// ---------------------------------------------------------------------------

/// One step of the capitalizer. The state is the text so far and whether the
/// next alphabetic character starts a sentence. Sentence ends are `.`, `!`,
/// `?` and line breaks; white space and quote marks keep a pending capital
/// pending, any other character cancels it.
pub open spec fn cap_step(st: (Seq<char>, bool), ch: char) -> (Seq<char>, bool) {
    if st.1 && alphabetic(ch) {
        (st.0 + uppercase(ch), false)
    } else if ch == '.' || ch == '!' || ch == '?' || ch == '\n' {
        (st.0.push(ch), true)
    } else if !is_white_space(ch) && ch != '"' && ch != '\u{201C}' && ch != '\u{201D}' {
        (st.0.push(ch), false)
    } else {
        (st.0.push(ch), st.1)
    }
}

pub open spec fn cap_state(s: Seq<char>) -> (Seq<char>, bool)
    decreases s.len(),
{
    if s.len() == 0 {
        (Seq::empty(), true)
    } else {
        cap_step(cap_state(s.drop_last()), s.last())
    }
}

/// `s` with the first letter of every sentence upper-cased.
pub open spec fn capitalize_spec(s: Seq<char>) -> Seq<char> {
    cap_state(s).0
}

fn capitalize_sentences(text: &str) -> (res: String)
    ensures
        res@ == capitalize_spec(text@),
{
    let v = chars_of(text);
    let mut out: Vec<char> = Vec::new();
    let mut capitalize_next = true;
    let mut i: usize = 0;
    while i < v.len()
        invariant
            i <= v.len(),
            (out@, capitalize_next) == cap_state(v@.take(i as int)),
        decreases v.len() - i,
    {
        let ch = v[i];
        proof {
            assert(v@.take(i + 1).drop_last() == v@.take(i as int));
            assert(v@.take(i + 1).last() == ch);
        }
        if capitalize_next && is_alphabetic(ch) {
            let up = to_uppercase(ch);
            extend_vec(&mut out, &up);
            capitalize_next = false;
        } else {
            out.push(ch);
            if ch == '.' || ch == '!' || ch == '?' || ch == '\n' {
                capitalize_next = true;
            } else if !is_white_space_char(ch) && ch != '"' && ch != '\u{201C}' && ch != '\u{201D}' {
                capitalize_next = false;
            }
        }
        i += 1;
    }
    assert(v@.take(v.len() as int) == v@);
    string_of(&out)
}

proof fn lemma_cap_prefix(s: Seq<char>, n: int)
    requires
        0 <= n <= s.len(),
    ensures
        cap_state(s.take(n)).0.len() <= cap_state(s).0.len(),
        cap_state(s).0.take(cap_state(s.take(n)).0.len() as int) == cap_state(s.take(n)).0,
    decreases s.len(),
{
    if n == s.len() {
        assert(s.take(n) == s);
        assert(cap_state(s).0.take(cap_state(s).0.len() as int) == cap_state(s).0);
    } else {
        let d = s.drop_last();
        lemma_cap_prefix(d, n);
        assert(d.take(n) == s.take(n));
        let a = cap_state(d).0;
        let b = cap_state(s).0;
        let m = cap_state(s.take(n)).0.len() as int;
        assert(b.take(a.len() as int) == a);
        assert(b.take(m) == a.take(m));
    }
}

proof fn lemma_capital_pending(s: Seq<char>, i: int, j: int, k: int)
    requires
        0 <= i < k <= j < s.len(),
        s[i] == '.' || s[i] == '!' || s[i] == '?' || s[i] == '\n',
        !alphabetic(s[i]),
        forall|m: int|
            i < m < j ==> (is_white_space(#[trigger] s[m]) || s[m] == '"' || s[m] == '\u{201C}' || s[m]
                == '\u{201D}') && !alphabetic(s[m]),
    ensures
        cap_state(s.take(k)).1,
    decreases k,
{
    let t = s.take(k);
    assert(t.drop_last() == s.take(k - 1));
    assert(t.last() == s[k - 1]);
    if k - 1 > i {
        lemma_capital_pending(s, i, j, k - 1);
    }
}

/// Law: after a sentence end (`.`, `!`, `?` or a line break), followed only
/// by white space and quote marks, the next letter is upper-cased: the
/// output for the text up to that letter is the output for the text before
/// it followed by the letter's upper case, and the whole output carries that
/// upper case at that place. (Sentence ends, spaces and quotes are taken to
/// be non-alphabetic, as they are in Unicode.)
pub proof fn lemma_sentence_start_is_capitalized(s: Seq<char>, i: int, j: int)
    requires
        0 <= i < j < s.len(),
        s[i] == '.' || s[i] == '!' || s[i] == '?' || s[i] == '\n',
        !alphabetic(s[i]),
        forall|m: int|
            i < m < j ==> (is_white_space(#[trigger] s[m]) || s[m] == '"' || s[m] == '\u{201C}' || s[m]
                == '\u{201D}') && !alphabetic(s[m]),
        alphabetic(s[j]),
    ensures
        capitalize_spec(s.take(j + 1)) == capitalize_spec(s.take(j)) + uppercase(s[j]),
        capitalize_spec(s).subrange(
            capitalize_spec(s.take(j)).len() as int,
            (capitalize_spec(s.take(j)).len() + uppercase(s[j]).len()) as int,
        ) == uppercase(s[j]),
{
    lemma_capital_pending(s, i, j, j);
    let t = s.take(j + 1);
    assert(t.drop_last() == s.take(j));
    assert(t.last() == s[j]);
    lemma_cap_prefix(s, j + 1);
    let whole = capitalize_spec(s);
    let pre = capitalize_spec(s.take(j));
    let m = pre.len() as int;
    let u = uppercase(s[j]);
    assert(whole.take(m + u.len()) == pre + u);
    assert(whole.subrange(m, m + u.len()) == (pre + u).subrange(m, m + u.len()));
    assert((pre + u).subrange(m, m + u.len()) == u);
}

// ---------------------------------------------------------------------------
// The full pass
// ---------------------------------------------------------------------------

/// The deterministic pass: trim, then (if enabled) remove fillers, then (if
/// enabled) interpret spoken punctuation, then tidy white space, then (if
/// enabled) capitalize sentence starts.
pub open spec fn post_process_spec(text: Seq<char>, cfg: FormatSettings) -> Seq<char> {
    let t0 = trim(text);
    let t1 = if cfg.remove_fillers {
        remove_fillers_spec(t0)
    } else {
        t0
    };
    let t2 = if cfg.spoken_punctuation {
        spoken_punctuation_spec(t1)
    } else {
        t1
    };
    let t3 = tidy_whitespace_spec(t2);
    if cfg.smart_capitalization {
        capitalize_spec(t3)
    } else {
        t3
    }
}

pub fn post_process(text: &str, cfg: &FormatSettings) -> (res: String)
    ensures
        res@ == post_process_spec(text@, *cfg),
{
    let mut out = trim_str(text);
    if cfg.remove_fillers {
        out = remove_fillers(out.as_str());
    }
    if cfg.spoken_punctuation {
        out = apply_spoken_punctuation(out.as_str());
    }
    out = tidy_whitespace(out.as_str());
    if cfg.smart_capitalization {
        out = capitalize_sentences(out.as_str());
    }
    out
}

} // verus!
