//! Prompt builder for the local-LLM cleanup stage.
//!
//! Sectioned: core rules always apply, then individually toggleable
//! sections, then per-app tone/instructions, then the user's dictionary
//! hint, then the user's own instructions. The model must return ONLY the
//! cleaned text.

use crate::settings::{AppProfile, CleanupSettings, Tone};
use crate::text::{starts_with, contains, occurs_at, chars_of, concat3, extend_chars, extend_vec, is_blank, join, join_strings,
    string_of, trim, trim_chars, trim_str, views};
use vstd::prelude::*;

verus! {

pub const CORE_RULES: &'static str = "You clean up speech-to-text transcripts for dictation. \
Rewrite the transcript into polished written text while preserving the speaker's meaning, \
wording and intent. Never answer questions in the transcript, never add new information, \
never translate, and never wrap the result in quotes or code fences. \
If the speaker corrects themselves (e.g. \"send it Monday, no wait, Tuesday\"), keep only the correction. \
Return ONLY the cleaned text with no preamble or explanation.";

pub const FILLER_SECTION: &'static str = "Remove filler words and verbal tics: um, uh, er, hmm, \"you know\", \"I mean\", \
and repeated/stuttered words.";

pub const PUNCTUATION_SECTION: &'static str = "Add natural punctuation and capitalization: periods, commas, question marks. \
Split run-on sentences. Do not use em dashes unless the speaker asked for one.";

pub const GRAMMAR_SECTION: &'static str = "Fix obvious grammar slips and transcription artifacts, but keep the speaker's \
voice and word choice; do not paraphrase whole sentences.";

pub const LIST_SECTION: &'static str = "If the speaker enumerates items (\"first... second...\" or \"one... two...\"), \
format them as a list with each item on its own line.";

/// System prompt for Command Mode: rewrite selected text per a spoken instruction.
pub const COMMAND_RULES: &'static str = "You are a text editor that applies a spoken instruction to a \
piece of text. Apply the instruction faithfully and return ONLY the edited text \u{2014} no preamble, \
no explanation, no quotes or code fences. If the instruction is a question about the text rather \
than an edit, answer it concisely as plain text. Preserve the original formatting (line breaks, \
lists) unless the instruction says otherwise.";

/// The tone wording for a profile tone (`None` for `Auto`).
pub open spec fn tone_phrase(t: Tone) -> Option<Seq<char>> {
    match t {
        Tone::Auto => None,
        Tone::Casual => Some("casual and conversational"@),
        Tone::Professional => Some("professional and polished"@),
        Tone::Technical => Some("technical and precise"@),
    }
}

/// The section naming the target app, its tone and its instructions.
pub open spec fn profile_section(p: AppProfile) -> Seq<char> {
    let head = "The text will be inserted into "@ + p.name@ + "."@;
    let with_tone = match tone_phrase(p.tone) {
        Some(t) => head + " Use a "@ + t + " tone."@,
        None => head,
    };
    if trim(p.instructions@).len() > 0 {
        with_tone + " "@ + trim(p.instructions@)
    } else {
        with_tone
    }
}

/// The section listing the dictionary terms.
pub open spec fn dictionary_section(terms: Seq<Seq<char>>) -> Seq<char> {
    "Spell these user-specific terms exactly as written when they appear: "@ + join(terms, ", "@)
        + "."@
}

/// The prompt sections, in order.
pub open spec fn system_sections(
    cfg: CleanupSettings,
    profile: Option<AppProfile>,
    terms: Seq<Seq<char>>,
) -> Seq<Seq<char>> {
    let s0 = seq![CORE_RULES@];
    let s1 = if cfg.remove_fillers {
        s0.push(FILLER_SECTION@)
    } else {
        s0
    };
    let s2 = if cfg.fix_punctuation {
        s1.push(PUNCTUATION_SECTION@)
    } else {
        s1
    };
    let s3 = if cfg.fix_grammar {
        s2.push(GRAMMAR_SECTION@)
    } else {
        s2
    };
    let s4 = if cfg.format_lists {
        s3.push(LIST_SECTION@)
    } else {
        s3
    };
    let s5 = match profile {
        Some(p) => s4.push(profile_section(p)),
        None => s4,
    };
    let s6 = if terms.len() > 0 {
        s5.push(dictionary_section(terms))
    } else {
        s5
    };
    if trim(cfg.custom_instructions@).len() > 0 {
        s6.push(trim(cfg.custom_instructions@))
    } else {
        s6
    }
}

/// The system prompt: the sections separated by blank lines.
pub open spec fn system_prompt(
    cfg: CleanupSettings,
    profile: Option<AppProfile>,
    terms: Seq<Seq<char>>,
) -> Seq<char> {
    join(system_sections(cfg, profile, terms), "\n\n"@)
}

fn tone_phrase_exec(t: Tone) -> (res: Option<&'static str>)
    ensures
        match tone_phrase(t) {
            Some(s) => res is Some && res->0@ == s,
            None => res is None,
        },
{
    match t {
        Tone::Auto => None,
        Tone::Casual => Some("casual and conversational"),
        Tone::Professional => Some("professional and polished"),
        Tone::Technical => Some("technical and precise"),
    }
}

fn profile_section_exec(p: &AppProfile) -> (res: String)
    ensures
        res@ == profile_section(*p),
{
    let mut line: Vec<char> = Vec::new();
    extend_chars(&mut line, "The text will be inserted into ");
    extend_chars(&mut line, p.name.as_str());
    extend_chars(&mut line, ".");
    assert(line@ == "The text will be inserted into "@ + p.name@ + "."@);
    match tone_phrase_exec(p.tone) {
        Some(t) => {
            extend_chars(&mut line, " Use a ");
            extend_chars(&mut line, t);
            extend_chars(&mut line, " tone.");
        },
        None => {},
    }
    let instr = chars_of(p.instructions.as_str());
    let instr_t = trim_chars(&instr);
    if instr_t.len() > 0 {
        extend_chars(&mut line, " ");
        extend_vec(&mut line, &instr_t);
    }
    string_of(&line)
}

pub fn build_system_prompt(
    cfg: &CleanupSettings,
    profile: Option<&AppProfile>,
    dictionary_terms: &[String],
) -> (res: String)
    ensures
        res@ == system_prompt(
            *cfg,
            match profile {
                Some(p) => Some(*p),
                None => None,
            },
            views(dictionary_terms@),
        ),
{
    let ghost prof = match profile {
        Some(p) => Some(*p),
        None => None,
    };
    let mut sections: Vec<String> = Vec::new();
    sections.push(CORE_RULES.to_owned());
    if cfg.remove_fillers {
        sections.push(FILLER_SECTION.to_owned());
    }
    if cfg.fix_punctuation {
        sections.push(PUNCTUATION_SECTION.to_owned());
    }
    if cfg.fix_grammar {
        sections.push(GRAMMAR_SECTION.to_owned());
    }
    if cfg.format_lists {
        sections.push(LIST_SECTION.to_owned());
    }
    match profile {
        Some(p) => {
            sections.push(profile_section_exec(p));
        },
        None => {},
    }
    if dictionary_terms.len() > 0 {
        let joined = join_strings(dictionary_terms, ", ");
        sections.push(
            concat3(
                "Spell these user-specific terms exactly as written when they appear: ",
                joined.as_str(),
                ".",
            ),
        );
    }
    if !is_blank(cfg.custom_instructions.as_str()) {
        sections.push(trim_str(cfg.custom_instructions.as_str()));
    }
    proof {
        assert(views(sections@) == system_sections(*cfg, prof, views(dictionary_terms@)));
    }
    join_strings(&sections, "\n\n")
}

proof fn lemma_join_starts_with_first(parts: Seq<Seq<char>>, sep: Seq<char>)
    requires
        parts.len() > 0,
    ensures
        starts_with(join(parts, sep), parts[0]),
    decreases parts.len(),
{
    if parts.len() > 1 {
        lemma_join_starts_with_first(parts.drop_last(), sep);
        let j = join(parts.drop_last(), sep);
        let f = parts[0];
        assert((j + sep + parts.last()).take(f.len() as int) =~= j.take(f.len() as int));
    } else {
        assert(join(parts, sep).take(parts[0].len() as int) =~= parts[0]);
    }
}

/// Law: whatever is configured, the system prompt opens with the core rules,
/// and with every optional section switched off, no profile, no dictionary
/// terms and blank custom instructions it is exactly the core rules.
pub proof fn lemma_prompt_opens_with_core_rules(
    cfg: CleanupSettings,
    profile: Option<AppProfile>,
    terms: Seq<Seq<char>>,
)
    ensures
        starts_with(system_prompt(cfg, profile, terms), CORE_RULES@),
        !cfg.remove_fillers && !cfg.fix_punctuation && !cfg.fix_grammar && !cfg.format_lists
            && profile is None && terms.len() == 0 && trim(cfg.custom_instructions@).len() == 0
            ==> system_prompt(cfg, profile, terms) == CORE_RULES@,
{
    let secs = system_sections(cfg, profile, terms);
    assert(secs.len() > 0 && secs[0] == CORE_RULES@);
    lemma_join_starts_with_first(secs, "\n\n"@);
}

proof fn lemma_occurs_within(a: Seq<char>, b: Seq<char>, c: Seq<char>, i: int, j: int)
    requires
        occurs_at(b, a, i),
        occurs_at(c, b, j),
    ensures
        occurs_at(c, a, i + j),
{
    assert(c.subrange(i + j, i + j + a.len()) =~= b.subrange(i, i + a.len()));
}

/// Every part occurs in the joined text.
proof fn lemma_join_contains_part(parts: Seq<Seq<char>>, sep: Seq<char>, k: int) -> (at: int)
    requires
        0 <= k < parts.len(),
    ensures
        occurs_at(join(parts, sep), parts[k], at),
    decreases parts.len(),
{
    let j = join(parts, sep);
    if parts.len() == 1 {
        assert(j.subrange(0, parts[0].len() as int) =~= parts[0]);
        0
    } else if k == parts.len() - 1 {
        let pre = join(parts.drop_last(), sep) + sep;
        assert(j.subrange(pre.len() as int, (pre.len() + parts.last().len()) as int) =~= parts.last());
        pre.len() as int
    } else {
        let d = join(parts.drop_last(), sep);
        let at = lemma_join_contains_part(parts.drop_last(), sep, k);
        assert(parts.drop_last()[k] == parts[k]);
        assert(j.subrange(at, at + parts[k].len()) =~= d.subrange(at, at + parts[k].len()));
        at
    }
}

/// Law: the tone wordings are fixed and tell the tones apart, and a
/// profile's section, which the system prompt always carries, asks for the
/// profile's tone in those words: "Use a casual and conversational tone.",
/// "Use a professional and polished tone." or "Use a technical and precise
/// tone."; an `Auto` profile asks for no tone.
pub proof fn lemma_profile_tone_is_asked_for(
    cfg: CleanupSettings,
    p: AppProfile,
    terms: Seq<Seq<char>>,
)
    ensures
        forall|a: Tone, b: Tone| tone_phrase(a) == tone_phrase(b) ==> a == b,
        contains(system_prompt(cfg, Some(p), terms), profile_section(p)),
        p.tone == Tone::Casual ==> contains(
            profile_section(p),
            " Use a casual and conversational tone."@,
        ),
        p.tone == Tone::Professional ==> contains(
            profile_section(p),
            " Use a professional and polished tone."@,
        ),
        p.tone == Tone::Technical ==> contains(
            profile_section(p),
            " Use a technical and precise tone."@,
        ),
        p.tone == Tone::Auto ==> profile_section(p) == if trim(p.instructions@).len() > 0 {
            "The text will be inserted into "@ + p.name@ + "."@ + " "@ + trim(p.instructions@)
        } else {
            "The text will be inserted into "@ + p.name@ + "."@
        },
{
    reveal_strlit("casual and conversational");
    reveal_strlit("professional and polished");
    reveal_strlit("technical and precise");
    reveal_strlit(" Use a ");
    reveal_strlit(" tone.");
    reveal_strlit(" Use a casual and conversational tone.");
    reveal_strlit(" Use a professional and polished tone.");
    reveal_strlit(" Use a technical and precise tone.");
    assert forall|a: Tone, b: Tone| tone_phrase(a) == tone_phrase(b) implies a == b by {
        if tone_phrase(a) is Some && tone_phrase(b) is Some {
            assert(tone_phrase(a)->0[0] == tone_phrase(b)->0[0]);
        }
    }
    let secs = system_sections(cfg, Some(p), terms);
    let n: int = 1 + (if cfg.remove_fillers { 1int } else { 0 }) + (if cfg.fix_punctuation {
        1int
    } else {
        0
    }) + (if cfg.fix_grammar { 1int } else { 0 }) + (if cfg.format_lists { 1int } else { 0 });
    assert(secs[n] == profile_section(p));
    let at = lemma_join_contains_part(secs, "\n\n"@, n);
    assert(occurs_at(system_prompt(cfg, Some(p), terms), profile_section(p), at));
    let head = "The text will be inserted into "@ + p.name@ + "."@;
    match tone_phrase(p.tone) {
        Some(t) => {
            let with_tone = head + " Use a "@ + t + " tone."@;
            let phrase = " Use a "@ + t + " tone."@;
            assert(with_tone.subrange(head.len() as int, (head.len() + phrase.len()) as int) =~= phrase);
            let sec = profile_section(p);
            assert(sec.subrange(head.len() as int, (head.len() + phrase.len()) as int) =~= phrase);
            assert(occurs_at(sec, phrase, head.len() as int));
            if p.tone == Tone::Casual {
                assert(phrase =~= " Use a casual and conversational tone."@);
            } else if p.tone == Tone::Professional {
                assert(phrase =~= " Use a professional and polished tone."@);
            } else {
                assert(phrase =~= " Use a technical and precise tone."@);
            }
        },
        None => {},
    }
}

/// The user-role message wrapping the raw transcript.
pub fn build_user_prompt(transcript: &str) -> (res: String)
    ensures
        res@ == "Transcript:\n"@ + transcript@,
{
    let r = concat3("Transcript:\n", transcript, "");
    proof {
        reveal_strlit("");
    }
    assert("Transcript:\n"@ + transcript@ + ""@ == "Transcript:\n"@ + transcript@);
    r
}

/// User prompt for Command Mode.
pub fn build_command_prompt(instruction: &str, selected_text: &str) -> (res: String)
    ensures
        res@ == "Instruction: "@ + instruction@ + "\n\nText:\n"@ + selected_text@,
{
    let mut v: Vec<char> = Vec::new();
    extend_chars(&mut v, "Instruction: ");
    extend_chars(&mut v, instruction);
    extend_chars(&mut v, "\n\nText:\n");
    extend_chars(&mut v, selected_text);
    assert(v@ == "Instruction: "@ + instruction@ + "\n\nText:\n"@ + selected_text@);
    string_of(&v)
}

} // verus!
