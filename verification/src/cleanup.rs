//! Local-LLM cleanup: deciding whether to call the LLM, what to send, and
//! what to make of the reply. The HTTP round trip itself is done by the
//! caller, which hands the reply back as a `ChatReply`.
//!
//! Fail-open by design: any error (server down, timeout, bad response)
//! yields `CleanupOutcome::Skipped` with a reason, and the caller injects the
//! deterministically formatted transcript instead.

use crate::prompts::{build_command_prompt, build_system_prompt, build_user_prompt, system_prompt,
    COMMAND_RULES};
use crate::settings::{AppProfile, CleanupProvider, CleanupSettings};
use crate::text::{chars_of, concat2, contains, contains_exec, decimal, decimal_chars, drop_trailing_either,
    drop_trailing_either_exec, drop_until, drop_until_exec, ends_with, ends_with_exec, extend_chars,
    extend_vec, find_char, first_index_of, is_trimmed, is_white_space, occurs_at, trim_end,
    trim_start, lemma_first_index_of, lemma_trim_is_trimmed,
    slice_chars, starts_with, starts_with_exec, string_of, strip_prefixes, strip_prefixes_exec,
    strip_suffixes, strip_suffixes_exec, trim, trim_chars, trim_str, views};
use crate::unicode::{lowercase, to_lowercase};
use vstd::prelude::*;
use vstd::utf8::{char_is_scalar, encode_scalar, encode_utf8, has_width_1_encoding,
    has_width_2_encoding, has_width_3_encoding};

verus! {

#[derive(Debug, Clone, PartialEq)]
pub enum CleanupOutcome {
    Cleaned(String),
    /// Cleanup didn't run or failed; the reason is surfaced in the UI/log.
    Skipped(String),
}

impl CleanupOutcome {
    /// The cleaned text, or `fallback` when cleanup was skipped.
    pub fn text_or<'a>(&'a self, fallback: &'a str) -> (res: &'a str)
        ensures
            match self {
                CleanupOutcome::Cleaned(t) => res@ == t@,
                CleanupOutcome::Skipped(_) => res@ == fallback@,
            },
    {
        match self {
            CleanupOutcome::Cleaned(t) => t.as_str(),
            CleanupOutcome::Skipped(_) => fallback,
        }
    }
}

// ---------------------------------------------------------------------------
// Sanitizing what the model returned
// ---------------------------------------------------------------------------

/// A code fence.
pub open spec fn fence() -> Seq<char> {
    "```"@
}

/// Trimmed text, with a surrounding code fence removed: when it starts with
/// a fence, the leading fences and the rest of that first line go, and so do
/// trailing fences; the result is trimmed again.
pub open spec fn strip_fences(s: Seq<char>) -> Seq<char> {
    let t = trim(s);
    if starts_with(t, fence()) {
        trim(strip_suffixes(drop_until(strip_prefixes(t, fence()), '\n'), fence()))
    } else {
        t
    }
}

/// Whether a first line looks like a preamble ("Here is the cleaned text:").
/// `first` is the line lowercased; its length is counted in UTF-8 bytes.
pub open spec fn is_preamble(first: Seq<char>) -> bool {
    &&& (starts_with(first, "here"@) || ends_with(first, ":"@))
    &&& (encode_utf8(first).len() as usize) < 80
    &&& (contains(first, "clean"@) || contains(first, "text"@) || contains(first, "transcript"@))
}

/// Drops a leading preamble line, if the first line is one.
pub open spec fn strip_preamble(t: Seq<char>) -> Seq<char> {
    match first_index_of(t, '\n') {
        Some(idx) => if is_preamble(lowercase(t.take(idx))) {
            trim(t.skip(idx + 1))
        } else {
            t
        },
        None => t,
    }
}

/// Text wrapped in straight double quotes (at least two characters).
pub open spec fn straight_quoted(t: Seq<char>) -> bool {
    t.len() >= 2 && t[0] == '"' && t.last() == '"'
}

/// Text wrapped in curly double quotes.
pub open spec fn curly_quoted(t: Seq<char>) -> bool {
    t.len() >= 2 && t[0] == '\u{201C}' && t.last() == '\u{201D}'
}

proof fn lemma_encode_utf8_append(a: Seq<char>, b: Seq<char>)
    ensures
        encode_utf8(a + b) == encode_utf8(a) + encode_utf8(b),
    decreases a.len(),
{
    if a.len() > 0 {
        assert((a + b).drop_first() == a.drop_first() + b);
        lemma_encode_utf8_append(a.drop_first(), b);
        assert(encode_utf8(a + b) == encode_scalar((a + b)[0] as u32) + encode_utf8(a.drop_first() + b));
    } else {
        assert(a + b == b);
    }
}

proof fn lemma_scalar_bytes(c: char)
    ensures
        encode_scalar(c as u32).len() >= 1,
        (encode_scalar(c as u32)[0] == 0x22u8) <==> (c == '"'),
        (encode_scalar(c as u32).last() == 0x22u8) <==> (c == '"'),
        c == '"' ==> encode_scalar(c as u32).len() == 1,
{
    let u = c as u32;
    char_is_scalar(c);
    assert('"' as u32 == 0x22);
    if has_width_1_encoding(u) {
        assert((u & 0x7F) as u8 == 0x22u8 <==> u == 0x22) by (bit_vector)
            requires
                u <= 0x7F,
        ;
    } else if has_width_2_encoding(u) {
        assert(0xC0u8 | ((u >> 6) & 0x1F) as u8 != 0x22u8) by (bit_vector);
        assert(0x80u8 | (u & 0x3F) as u8 != 0x22u8) by (bit_vector);
    } else if has_width_3_encoding(u) {
        assert(0xE0u8 | ((u >> 12) & 0x0F) as u8 != 0x22u8) by (bit_vector);
        assert(0x80u8 | (u & 0x3F) as u8 != 0x22u8) by (bit_vector);
    } else {
        assert(0xF0u8 | ((u >> 18) & 0x7) as u8 != 0x22u8) by (bit_vector);
        assert(0x80u8 | (u & 0x3F) as u8 != 0x22u8) by (bit_vector);
    }
}

/// The quote test is made on characters; the UTF-8 bytes give the same
/// answer: at least two bytes, the first and the last being `"`.
pub proof fn lemma_straight_quoted_bytes(t: Seq<char>)
    ensures
        straight_quoted(t) <==> (encode_utf8(t).len() >= 2 && encode_utf8(t)[0] == 0x22u8
            && encode_utf8(t).last() == 0x22u8),
{
    let b = encode_utf8(t);
    if t.len() > 0 {
        lemma_scalar_bytes(t[0]);
        lemma_scalar_bytes(t.last());
        assert(b == encode_scalar(t[0] as u32) + encode_utf8(t.drop_first()));
        assert(b[0] == encode_scalar(t[0] as u32)[0]);
        assert(t == t.drop_last() + seq![t.last()]);
        lemma_encode_utf8_append(t.drop_last(), seq![t.last()]);
        assert(encode_utf8(seq![t.last()]) == encode_scalar(t.last() as u32) + encode_utf8(
            seq![t.last()].drop_first(),
        ));
        assert(seq![t.last()].drop_first() == Seq::<char>::empty());
        assert(encode_utf8(seq![t.last()]) == encode_scalar(t.last() as u32));
        assert(b.last() == encode_scalar(t.last() as u32).last());
        if t.len() >= 2 {
            lemma_encode_utf8_append(seq![t[0]], t.drop_first());
            assert(b.len() >= encode_scalar(t[0] as u32).len() + encode_utf8(t.drop_first()).len());
            assert(t.drop_first().len() > 0);
            lemma_scalar_bytes(t.drop_first()[0]);
            assert(encode_utf8(t.drop_first()) == encode_scalar(t.drop_first()[0] as u32)
                + encode_utf8(t.drop_first().drop_first()));
        } else {
            assert(t == seq![t[0]]);
            assert(b == encode_scalar(t[0] as u32)) by {
                assert(t.drop_first() == Seq::<char>::empty());
            }
        }
    }
}

/// Removes symmetrical wrapping quotes, straight or curly: the opening
/// quote goes, and so do all trailing quote marks; the rest is trimmed.
pub open spec fn strip_quotes(t: Seq<char>) -> Seq<char> {
    if straight_quoted(t) || curly_quoted(t) {
        trim(drop_trailing_either(t.drop_first(), '"', '\u{201D}'))
    } else {
        t
    }
}

/// The text before the quote check.
pub open spec fn sanitize_stage(output: Seq<char>) -> Seq<char> {
    strip_preamble(strip_fences(output))
}

/// The longest cleaned text accepted for a transcript of `n` characters.
pub open spec fn max_cleaned_len(n: nat) -> int {
    let m: int = if n == 0 {
        1
    } else {
        n as int
    };
    m * 3 + 80
}

/// What `sanitize_llm_output` returns: the output without fences, preamble
/// or wrapping quotes, or empty when that is longer than the transcript
/// allows (a hallucinated essay).
pub open spec fn sanitize_spec(output: Seq<char>, transcript: Seq<char>) -> Seq<char> {
    let t = strip_quotes(sanitize_stage(output));
    if t.len() > max_cleaned_len(transcript.len()) {
        Seq::empty()
    } else {
        t
    }
}

fn strip_fences_exec(s: &str) -> (res: Vec<char>)
    ensures
        res@ == strip_fences(s@),
{
    let v = chars_of(s);
    let t = trim_chars(&v);
    let f = chars_of("```");
    if starts_with_exec(&t, &f) {
        let a = strip_prefixes_exec(&t, &f);
        let b = drop_until_exec(&a, '\n');
        let c = strip_suffixes_exec(&b, &f);
        trim_chars(&c)
    } else {
        t
    }
}

fn strip_preamble_exec(t: Vec<char>) -> (res: Vec<char>)
    ensures
        res@ == strip_preamble(t@),
{
    match find_char(&t, '\n') {
        Some(idx) => {
            proof {
                lemma_first_index_of(t@, '\n');
            }
            let first = slice_chars(&t, 0, idx);
            let first_s = string_of(&first);
            let lower = to_lowercase(first_s.as_str());
            let lv = chars_of(lower.as_str());
            let here = chars_of("here");
            let colon = chars_of(":");
            let clean = chars_of("clean");
            let text = chars_of("text");
            let transcript = chars_of("transcript");
            assert(first@ == t@.take(idx as int));
            if (starts_with_exec(&lv, &here) || ends_with_exec(&lv, &colon)) && lower.as_str().len()
                < 80 && (contains_exec(&lv, &clean) || contains_exec(&lv, &text) || contains_exec(
                &lv,
                &transcript,
            )) {
                let rest = slice_chars(&t, idx + 1, t.len());
                assert(rest@ == t@.skip(idx + 1));
                trim_chars(&rest)
            } else {
                t
            }
        },
        None => t,
    }
}

/// Guard against common small-model misbehavior: preambles, wrapping
/// quotes, code fences, and hallucinated essays. If the output looks
/// unusable, the result is empty so the caller keeps the raw transcript.
pub fn sanitize_llm_output(output: &str, transcript: &str) -> (res: String)
    requires
        transcript@.len() * 3 + 80 <= usize::MAX,
    ensures
        res@ == sanitize_spec(output@, transcript@),
{
    let stripped = strip_fences_exec(output);
    let t = strip_preamble_exec(stripped);
    let quoted = t.len() >= 2 && ((t[0] == '"' && t[t.len() - 1] == '"') || (t[0] == '\u{201C}'
        && t[t.len() - 1] == '\u{201D}'));
    let t2 = if quoted {
        let rest = slice_chars(&t, 1, t.len());
        assert(rest@ == t@.drop_first());
        let d = drop_trailing_either_exec(&rest, '"', '\u{201D}');
        trim_chars(&d)
    } else {
        t
    };
    let tv = chars_of(transcript);
    let t_len = if tv.len() == 0 {
        1
    } else {
        tv.len()
    };
    if t2.len() > t_len * 3 + 80 {
        String::new()
    } else {
        string_of(&t2)
    }
}

/// Law: what survives sanitizing has no white space at either end and is
/// never longer than three times the transcript (at least one character)
/// plus 80 characters.
pub proof fn lemma_sanitized_is_trimmed_and_bounded(output: Seq<char>, transcript: Seq<char>)
    ensures
        is_trimmed(sanitize_spec(output, transcript)),
        sanitize_spec(output, transcript).len() <= max_cleaned_len(transcript.len()),
{
    let s = trim(output);
    lemma_trim_is_trimmed(output);
    let f = strip_fences(output);
    if starts_with(s, fence()) {
        lemma_trim_is_trimmed(strip_suffixes(drop_until(strip_prefixes(s, fence()), '\n'), fence()));
    }
    assert(is_trimmed(f));
    let p = strip_preamble(f);
    match first_index_of(f, '\n') {
        Some(idx) => {
            lemma_trim_is_trimmed(f.skip(idx + 1));
        },
        None => {},
    }
    assert(is_trimmed(p));
    let q = strip_quotes(p);
    if straight_quoted(p) || curly_quoted(p) {
        lemma_trim_is_trimmed(drop_trailing_either(p.drop_first(), '"', '\u{201D}'));
    }
    assert(is_trimmed(q));
}

proof fn lemma_occurs_trans(a: Seq<char>, b: Seq<char>, c: Seq<char>, i: int, j: int)
    requires
        occurs_at(b, a, i),
        occurs_at(c, b, j),
    ensures
        occurs_at(c, a, i + j),
{
    assert(c.subrange(i + j, i + j + a.len()) =~= b.subrange(i, i + a.len()));
}

proof fn lemma_skip_occurs(s: Seq<char>, k: int)
    requires
        0 <= k <= s.len(),
    ensures
        occurs_at(s, s.skip(k), k),
{
    assert(s.subrange(k, k + s.skip(k).len()) =~= s.skip(k));
}

proof fn lemma_take_occurs(s: Seq<char>, k: int)
    requires
        0 <= k <= s.len(),
    ensures
        occurs_at(s, s.take(k), 0),
{
    assert(s.subrange(0, k) =~= s.take(k));
}

proof fn lemma_trim_start_skips(s: Seq<char>) -> (k: int)
    ensures
        0 <= k <= s.len(),
        trim_start(s) == s.skip(k),
    decreases s.len(),
{
    if s.len() > 0 && is_white_space(s[0]) {
        let k1 = lemma_trim_start_skips(s.drop_first());
        assert(s.drop_first().skip(k1) =~= s.skip(k1 + 1));
        k1 + 1
    } else {
        assert(s.skip(0) =~= s);
        0
    }
}

proof fn lemma_trim_end_takes(s: Seq<char>) -> (k: int)
    ensures
        0 <= k <= s.len(),
        trim_end(s) == s.take(k),
    decreases s.len(),
{
    if s.len() > 0 && is_white_space(s.last()) {
        let k1 = lemma_trim_end_takes(s.drop_last());
        assert(s.drop_last().take(k1) =~= s.take(k1));
        k1
    } else {
        assert(s.take(s.len() as int) =~= s);
        s.len() as int
    }
}

proof fn lemma_trim_occurs(s: Seq<char>) -> (k: int)
    ensures
        occurs_at(s, trim(s), k),
{
    let a = lemma_trim_start_skips(s);
    lemma_skip_occurs(s, a);
    let t = trim_start(s);
    let b = lemma_trim_end_takes(t);
    lemma_take_occurs(t, b);
    lemma_occurs_trans(trim(s), t, s, 0, a);
    a
}

proof fn lemma_strip_prefixes_skips(s: Seq<char>, p: Seq<char>) -> (k: int)
    ensures
        0 <= k <= s.len(),
        strip_prefixes(s, p) == s.skip(k),
    decreases s.len(),
{
    if p.len() > 0 && starts_with(s, p) {
        let d = s.skip(p.len() as int);
        let k1 = lemma_strip_prefixes_skips(d, p);
        assert(d.skip(k1) =~= s.skip(k1 + p.len()));
        k1 + p.len()
    } else {
        assert(s.skip(0) =~= s);
        0
    }
}

proof fn lemma_drop_until_skips(s: Seq<char>, c: char) -> (k: int)
    ensures
        0 <= k <= s.len(),
        drop_until(s, c) == s.skip(k),
    decreases s.len(),
{
    if s.len() > 0 && s[0] != c {
        let k1 = lemma_drop_until_skips(s.drop_first(), c);
        assert(s.drop_first().skip(k1) =~= s.skip(k1 + 1));
        k1 + 1
    } else {
        assert(s.skip(0) =~= s);
        0
    }
}

proof fn lemma_strip_suffixes_takes(s: Seq<char>, p: Seq<char>) -> (k: int)
    ensures
        0 <= k <= s.len(),
        strip_suffixes(s, p) == s.take(k),
    decreases s.len(),
{
    if p.len() > 0 && ends_with(s, p) {
        let d = s.take(s.len() - p.len());
        let k1 = lemma_strip_suffixes_takes(d, p);
        assert(d.take(k1) =~= s.take(k1));
        k1
    } else {
        assert(s.take(s.len() as int) =~= s);
        s.len() as int
    }
}

proof fn lemma_drop_trailing_takes(s: Seq<char>, a: char, b: char) -> (k: int)
    ensures
        0 <= k <= s.len(),
        drop_trailing_either(s, a, b) == s.take(k),
    decreases s.len(),
{
    if s.len() > 0 && (s.last() == a || s.last() == b) {
        let k1 = lemma_drop_trailing_takes(s.drop_last(), a, b);
        assert(s.drop_last().take(k1) =~= s.take(k1));
        k1
    } else {
        assert(s.take(s.len() as int) =~= s);
        s.len() as int
    }
}

proof fn lemma_strip_fences_occurs(s: Seq<char>) -> (k: int)
    ensures
        occurs_at(s, strip_fences(s), k),
{
    let t = trim(s);
    let k0 = lemma_trim_occurs(s);
    if starts_with(t, fence()) {
        let a = strip_prefixes(t, fence());
        let ka = lemma_strip_prefixes_skips(t, fence());
        lemma_skip_occurs(t, ka);
        let b = drop_until(a, '\n');
        let kb = lemma_drop_until_skips(a, '\n');
        lemma_skip_occurs(a, kb);
        let c = strip_suffixes(b, fence());
        let kc = lemma_strip_suffixes_takes(b, fence());
        lemma_take_occurs(b, kc);
        let kd = lemma_trim_occurs(c);
        lemma_occurs_trans(trim(c), c, b, kd, 0);
        lemma_occurs_trans(trim(c), b, a, kd, kb);
        lemma_occurs_trans(trim(c), a, t, kd + kb, ka);
        lemma_occurs_trans(trim(c), t, s, kd + kb + ka, k0);
        kd + kb + ka + k0
    } else {
        k0
    }
}

proof fn lemma_strip_preamble_occurs(t: Seq<char>) -> (k: int)
    ensures
        occurs_at(t, strip_preamble(t), k),
{
    match first_index_of(t, '\n') {
        Some(idx) => {
            lemma_first_index_of(t, '\n');
            if is_preamble(lowercase(t.take(idx))) {
                let r = t.skip(idx + 1);
                lemma_skip_occurs(t, idx + 1);
                let kr = lemma_trim_occurs(r);
                lemma_occurs_trans(trim(r), r, t, kr, idx + 1);
                kr + idx + 1
            } else {
                lemma_skip_occurs(t, 0);
                assert(t.skip(0) =~= t);
                0
            }
        },
        None => {
            lemma_skip_occurs(t, 0);
            assert(t.skip(0) =~= t);
            0
        },
    }
}

proof fn lemma_strip_quotes_occurs(t: Seq<char>) -> (k: int)
    ensures
        occurs_at(t, strip_quotes(t), k),
{
    if straight_quoted(t) || curly_quoted(t) {
        let a = t.drop_first();
        assert(a =~= t.skip(1));
        lemma_skip_occurs(t, 1);
        let b = drop_trailing_either(a, '"', '\u{201D}');
        let kb = lemma_drop_trailing_takes(a, '"', '\u{201D}');
        lemma_take_occurs(a, kb);
        let kc = lemma_trim_occurs(b);
        lemma_occurs_trans(trim(b), b, a, kc, 0);
        lemma_occurs_trans(trim(b), a, t, kc, 1);
        kc + 1
    } else {
        lemma_skip_occurs(t, 0);
        assert(t.skip(0) =~= t);
        0
    }
}

/// Law: a preamble line is dropped. When the trimmed output has no code
/// fence and its first line, lowercased, starts with "here" or ends with
/// ':', is shorter than 80 bytes and mentions "clean", "text" or
/// "transcript", what is kept is the trimmed rest after that line; when that
/// rest is not wrapped in quotes and not too long, it is the result.
pub proof fn lemma_preamble_line_is_dropped(output: Seq<char>, transcript: Seq<char>, idx: int)
    requires
        !starts_with(trim(output), "```"@),
        0 <= idx < trim(output).len(),
        trim(output)[idx] == '\n',
        forall|k: int| 0 <= k < idx ==> trim(output)[k] != '\n',
        starts_with(lowercase(trim(output).take(idx)), "here"@) || ends_with(
            lowercase(trim(output).take(idx)),
            ":"@,
        ),
        encode_utf8(lowercase(trim(output).take(idx))).len() < 80,
        contains(lowercase(trim(output).take(idx)), "clean"@) || contains(
            lowercase(trim(output).take(idx)),
            "text"@,
        ) || contains(lowercase(trim(output).take(idx)), "transcript"@),
    ensures
        sanitize_stage(output) == trim(trim(output).skip(idx + 1)),
        ({
            let r = trim(trim(output).skip(idx + 1));
            !straight_quoted(r) && !curly_quoted(r) && r.len() <= max_cleaned_len(transcript.len())
                ==> sanitize_spec(output, transcript) == r
        }),
{
    let t = trim(output);
    reveal_strlit("```");
    assert(fence() == "```"@);
    assert(strip_fences(output) == t);
    lemma_first_index_of(t, '\n');
    match first_index_of(t, '\n') {
        Some(i) => {
            assert(i == idx);
        },
        None => {
            assert(t[idx] != '\n');
        },
    }
}

/// Law: sanitizing only cuts: what it returns occurs in the model's output
/// as one piece.
pub proof fn lemma_sanitized_is_part_of_output(output: Seq<char>, transcript: Seq<char>)
    ensures
        contains(output, sanitize_spec(output, transcript)),
{
    let f = strip_fences(output);
    let kf = lemma_strip_fences_occurs(output);
    let p = strip_preamble(f);
    let kp = lemma_strip_preamble_occurs(f);
    let q = strip_quotes(p);
    let kq = lemma_strip_quotes_occurs(p);
    lemma_occurs_trans(q, p, f, kq, kp);
    lemma_occurs_trans(q, f, output, kq + kp, kf);
    if q.len() > max_cleaned_len(transcript.len()) {
        assert(occurs_at(output, sanitize_spec(output, transcript), 0)) by {
            assert(output.subrange(0, 0) =~= Seq::<char>::empty());
        }
    } else {
        assert(occurs_at(output, sanitize_spec(output, transcript), kq + kp + kf));
    }
}

// ---------------------------------------------------------------------------
// Talking to the LLM server
// ---------------------------------------------------------------------------

/// One chat request to the local LLM server: where to send it, what to
/// send, and how long to wait. The body is `{model, messages: [system,
/// user]}` plus the sampling temperature (in tenths) placed as the provider
/// expects it (Ollama: `stream: false, options.temperature`; OpenAI-style:
/// a top-level `temperature`).
#[derive(Debug, Clone, PartialEq)]
pub struct ChatRequest {
    pub provider: CleanupProvider,
    pub url: String,
    pub model: String,
    pub system: String,
    pub user: String,
    pub temperature_tenths: u8,
    pub timeout_ms: u64,
}

/// What came back from a chat request.
#[derive(Debug, Clone, PartialEq)]
pub enum ChatReply {
    /// The HTTP client could not be built (the error's text).
    ClientError(String),
    /// The server could not be reached or timed out (the error's text).
    Unreachable(String),
    /// The server answered with a non-success status (the status' text).
    Status(String),
    /// A success status; the message content if the body had one.
    Content(Option<String>),
}

/// The base URL without trailing slashes.
pub open spec fn base_url(cfg: CleanupSettings) -> Seq<char> {
    drop_trailing_either(cfg.base_url@, '/', '/')
}

/// The chat endpoint of a provider under a base URL.
pub open spec fn endpoint(provider: CleanupProvider, base: Seq<char>) -> Seq<char> {
    match provider {
        CleanupProvider::Ollama => base + "/api/chat"@,
        CleanupProvider::OpenAiCompat => base + "/v1/chat/completions"@,
    }
}

/// The timeout used for cleanup: the configured one, but at least a second.
pub open spec fn cleanup_timeout(cfg: CleanupSettings) -> u64 {
    if cfg.timeout_ms < 1000 {
        1000
    } else {
        cfg.timeout_ms
    }
}

/// The reason given when a transcript is too short for the LLM.
pub open spec fn too_short_reason(min_chars: usize) -> Seq<char> {
    "transcript under "@ + decimal(min_chars as nat) + " chars; skipping LLM"@
}

fn endpoint_exec(provider: CleanupProvider, cfg: &CleanupSettings) -> (res: String)
    ensures
        res@ == endpoint(provider, base_url(*cfg)),
{
    let v = chars_of(cfg.base_url.as_str());
    let mut base = drop_trailing_either_exec(&v, '/', '/');
    match provider {
        CleanupProvider::Ollama => extend_chars(&mut base, "/api/chat"),
        CleanupProvider::OpenAiCompat => extend_chars(&mut base, "/v1/chat/completions"),
    }
    string_of(&base)
}

/// The first half of `clean_transcript`: either the reason cleanup is
/// skipped without asking the LLM (disabled, or the trimmed transcript has
/// fewer than `min_chars` characters), or the request to send.
pub fn plan_cleanup(
    cfg: &CleanupSettings,
    transcript: &str,
    profile: Option<&AppProfile>,
    dictionary_terms: &[String],
) -> (res: Result<ChatRequest, CleanupOutcome>)
    ensures
        !cfg.enabled ==> (res matches Err(CleanupOutcome::Skipped(r)) && r@ == "cleanup disabled"@),
        cfg.enabled && trim(transcript@).len() < cfg.min_chars ==> (res matches Err(
            CleanupOutcome::Skipped(r),
        ) && r@ == too_short_reason(cfg.min_chars)),
        cfg.enabled && trim(transcript@).len() >= cfg.min_chars ==> (res matches Ok(req) && {
            &&& req.provider == cfg.provider
            &&& req.url@ == endpoint(cfg.provider, base_url(*cfg))
            &&& req.model@ == cfg.model@
            &&& req.system@ == system_prompt(
                *cfg,
                match profile {
                    Some(p) => Some(*p),
                    None => None,
                },
                views(dictionary_terms@),
            )
            &&& req.user@ == "Transcript:\n"@ + trim(transcript@)
            &&& req.temperature_tenths == 2
            &&& req.timeout_ms == cleanup_timeout(*cfg)
        }),
{
    if !cfg.enabled {
        return Err(CleanupOutcome::Skipped("cleanup disabled".to_owned()));
    }
    let tv = chars_of(transcript);
    let t = trim_chars(&tv);
    if t.len() < cfg.min_chars {
        let mut reason: Vec<char> = Vec::new();
        extend_chars(&mut reason, "transcript under ");
        let digits = decimal_chars(cfg.min_chars);
        extend_vec(&mut reason, &digits);
        extend_chars(&mut reason, " chars; skipping LLM");
        return Err(CleanupOutcome::Skipped(string_of(&reason)));
    }
    let ts = string_of(&t);
    let system = build_system_prompt(cfg, profile, dictionary_terms);
    let user = build_user_prompt(ts.as_str());
    let timeout_ms = if cfg.timeout_ms < 1000 {
        1000
    } else {
        cfg.timeout_ms
    };
    Ok(
        ChatRequest {
            provider: cfg.provider,
            url: endpoint_exec(cfg.provider, cfg),
            model: cfg.model.clone(),
            system,
            user,
            temperature_tenths: 2,
            timeout_ms,
        },
    )
}

/// `finish_cleanup` for any transcript: `None` exactly when the transcript
/// is too long to compute its length limit in a `usize`, otherwise what
/// `finish_cleanup` gives.
pub fn finish_cleanup_checked(provider: CleanupProvider, transcript: &str, reply: ChatReply) -> (res:
    Option<CleanupOutcome>)
    ensures
        res is None <==> trim(transcript@).len() * 3 + 80 > usize::MAX,
        res matches Some(o) ==> match reply {
            ChatReply::Content(Some(c)) => {
                let cleaned = sanitize_spec(c@, trim(transcript@));
                if cleaned.len() == 0 {
                    o matches CleanupOutcome::Skipped(r) && r@ == "LLM returned empty text"@
                } else {
                    o matches CleanupOutcome::Cleaned(t) && t@ == cleaned
                }
            },
            _ => o matches CleanupOutcome::Skipped(r) && r@ == cleanup_failure_reason(
                provider,
                reply,
            ),
        },
{
    let tv = chars_of(transcript);
    let t = trim_chars(&tv);
    if t.len() > (usize::MAX - 80) / 3 {
        return None;
    }
    Some(finish_cleanup(provider, transcript, reply))
}

/// The text of a failure reply, prefixed as cleanup reports it.
pub open spec fn cleanup_failure_reason(provider: CleanupProvider, reply: ChatReply) -> Seq<char> {
    match reply {
        ChatReply::ClientError(e) => "http client error: "@ + e@,
        ChatReply::Unreachable(e) => match provider {
            CleanupProvider::Ollama => "ollama unreachable: "@ + e@,
            CleanupProvider::OpenAiCompat => "server unreachable: "@ + e@,
        },
        ChatReply::Status(s) => match provider {
            CleanupProvider::Ollama => "ollama returned "@ + s@,
            CleanupProvider::OpenAiCompat => "server returned "@ + s@,
        },
        ChatReply::Content(_) => "malformed LLM response"@,
    }
}

/// Law: when cleanup is skipped, the reason given is never empty: the
/// reasons for a disabled cleanup, a short transcript, a failed request and
/// a reply without usable content all carry text.
pub proof fn lemma_skip_reasons_are_nonempty(provider: CleanupProvider, reply: ChatReply, min_chars: usize)
    ensures
        "cleanup disabled"@.len() > 0,
        too_short_reason(min_chars).len() > 0,
        "LLM returned empty text"@.len() > 0,
        !(reply matches ChatReply::Content(Some(_))) ==> cleanup_failure_reason(provider, reply).len()
            > 0,
{
    reveal_strlit("cleanup disabled");
    reveal_strlit("transcript under ");
    reveal_strlit("LLM returned empty text");
    reveal_strlit("http client error: ");
    reveal_strlit("ollama unreachable: ");
    reveal_strlit("server unreachable: ");
    reveal_strlit("ollama returned ");
    reveal_strlit("server returned ");
    reveal_strlit("malformed LLM response");
}

/// The second half of `clean_transcript`: turning the server's reply into
/// an outcome. Only usable content is `Cleaned`; everything else is skipped
/// with a reason.
pub fn finish_cleanup(provider: CleanupProvider, transcript: &str, reply: ChatReply) -> (res:
    CleanupOutcome)
    requires
        trim(transcript@).len() * 3 + 80 <= usize::MAX,
    ensures
        match reply {
            ChatReply::Content(Some(c)) => {
                let cleaned = sanitize_spec(c@, trim(transcript@));
                if cleaned.len() == 0 {
                    res matches CleanupOutcome::Skipped(r) && r@ == "LLM returned empty text"@
                } else {
                    res matches CleanupOutcome::Cleaned(t) && t@ == cleaned
                }
            },
            _ => res matches CleanupOutcome::Skipped(r) && r@ == cleanup_failure_reason(
                provider,
                reply,
            ),
        },
{
    match reply {
        ChatReply::ClientError(e) => CleanupOutcome::Skipped(concat2("http client error: ", e.as_str())),
        ChatReply::Unreachable(e) => match provider {
            CleanupProvider::Ollama => CleanupOutcome::Skipped(
                concat2("ollama unreachable: ", e.as_str()),
            ),
            CleanupProvider::OpenAiCompat => CleanupOutcome::Skipped(
                concat2("server unreachable: ", e.as_str()),
            ),
        },
        ChatReply::Status(s) => match provider {
            CleanupProvider::Ollama => CleanupOutcome::Skipped(
                concat2("ollama returned ", s.as_str()),
            ),
            CleanupProvider::OpenAiCompat => CleanupOutcome::Skipped(
                concat2("server returned ", s.as_str()),
            ),
        },
        ChatReply::Content(None) => CleanupOutcome::Skipped("malformed LLM response".to_owned()),
        ChatReply::Content(Some(c)) => {
            let t = trim_str(transcript);
            let cleaned = sanitize_llm_output(c.as_str(), t.as_str());
            if cleaned.as_str().is_empty() {
                CleanupOutcome::Skipped("LLM returned empty text".to_owned())
            } else {
                CleanupOutcome::Cleaned(cleaned)
            }
        },
    }
}

// ---------------------------------------------------------------------------
// Command Mode
// ---------------------------------------------------------------------------

/// The first half of `command_edit`: the request applying a spoken
/// instruction to the selected text. It waits twice the cleanup timeout.
pub fn plan_command_edit(cfg: &CleanupSettings, instruction: &str, selected_text: &str) -> (res:
    ChatRequest)
    requires
        cleanup_timeout(*cfg) * 2 <= u64::MAX,
    ensures
        res.provider == cfg.provider,
        res.url@ == endpoint(cfg.provider, base_url(*cfg)),
        res.model@ == cfg.model@,
        res.system@ == COMMAND_RULES@,
        res.user@ == "Instruction: "@ + trim(instruction@) + "\n\nText:\n"@ + selected_text@,
        res.temperature_tenths == 3,
        res.timeout_ms == cleanup_timeout(*cfg) * 2,
{
    let instr = trim_str(instruction);
    let user = build_command_prompt(instr.as_str(), selected_text);
    let timeout_ms = if cfg.timeout_ms < 1000 {
        1000
    } else {
        cfg.timeout_ms
    };
    ChatRequest {
        provider: cfg.provider,
        url: endpoint_exec(cfg.provider, cfg),
        model: cfg.model.clone(),
        system: COMMAND_RULES.to_owned(),
        user,
        temperature_tenths: 3,
        timeout_ms: timeout_ms * 2,
    }
}

/// The error text of a failed Command Mode reply.
pub open spec fn command_failure_reason(reply: ChatReply) -> Seq<char> {
    match reply {
        ChatReply::ClientError(e) => "http client error: "@ + e@,
        ChatReply::Unreachable(e) => "LLM unreachable: "@ + e@,
        ChatReply::Status(s) => "LLM returned "@ + s@,
        ChatReply::Content(_) => "malformed LLM response"@,
    }
}

/// The second half of `command_edit`: the edited text, trimmed and without
/// a surrounding code fence; there is no fallback, so every failure is an
/// error.
pub fn finish_command_edit(reply: ChatReply) -> (res: Result<String, String>)
    ensures
        match reply {
            ChatReply::Content(Some(c)) => if strip_fences(c@).len() == 0 {
                res matches Err(e) && e@ == "LLM returned empty text"@
            } else {
                res matches Ok(t) && t@ == strip_fences(c@)
            },
            _ => res matches Err(e) && e@ == command_failure_reason(reply),
        },
{
    match reply {
        ChatReply::ClientError(e) => Err(concat2("http client error: ", e.as_str())),
        ChatReply::Unreachable(e) => Err(concat2("LLM unreachable: ", e.as_str())),
        ChatReply::Status(s) => Err(concat2("LLM returned ", s.as_str())),
        ChatReply::Content(None) => Err("malformed LLM response".to_owned()),
        ChatReply::Content(Some(c)) => {
            let t = strip_fences_exec(c.as_str());
            if t.len() == 0 {
                Err("LLM returned empty text".to_owned())
            } else {
                Ok(string_of(&t))
            }
        },
    }
}

} // verus!
